use omnipaxos::ballot::Ballot;
use omnipaxos::memory_storage::MemoryStorage;
use omnipaxos::replica_state::{CompactionErr, ProposeErr, ReplicaState};
use omnipaxos::storage::{NoSnapshot, Snapshot, StopSign};

type Mem<T, S> = MemoryStorage<T, S>;

fn fresh() -> ReplicaState<u64, NoSnapshot, Mem<u64, NoSnapshot>> {
    ReplicaState::recover(Mem::new()).unwrap()
}

#[test]
fn crash_and_recovery() {
    let mut node: ReplicaState<String, NoSnapshot, Mem<String, NoSnapshot>> =
        ReplicaState::recover(Mem::new()).unwrap();
    assert_eq!(node.make_promise(Ballot::with(1, 0, 1)), Ok(true));
    assert_eq!(node.accept_round(Ballot::with(1, 0, 1)), Ok(true));
    for s in ["a", "b", "c"] {
        node.append(s.to_string()).unwrap();
    }
    assert_eq!(node.decide(3), Ok(3));
    let disk = node.into_storage();
    let node = ReplicaState::recover(disk).unwrap();
    assert_eq!(node.decided_idx(), 3);
    assert_eq!(
        node.read_entries(0, 3),
        Ok(vec!["a".to_string(), "b".to_string(), "c".to_string()])
    );
    assert_eq!(node.promise(), Ballot::with(1, 0, 1));
    assert_eq!(node.accepted_round(), Ballot::with(1, 0, 1));
}

#[test]
fn promise_only_moves_up() {
    let mut node = fresh();
    assert_eq!(node.make_promise(Ballot::with(2, 0, 1)), Ok(true));
    assert_eq!(node.make_promise(Ballot::with(1, 5, 5)), Ok(false));
    assert_eq!(node.make_promise(Ballot::with(2, 0, 1)), Ok(false));
    assert_eq!(node.promise(), Ballot::with(2, 0, 1));
    assert_eq!(node.accept_round(Ballot::with(3, 0, 1)), Ok(false));
    assert_eq!(node.accept_round(Ballot::with(2, 0, 1)), Ok(true));
    assert_eq!(node.accept_round(Ballot::with(1, 0, 1)), Ok(false));
    assert_eq!(node.accepted_round(), Ballot::with(2, 0, 1));
}

#[test]
fn decide_is_monotone_and_bounded_by_log() {
    let mut node = fresh();
    for i in 1..=5u64 {
        node.append(i).unwrap();
    }
    assert_eq!(node.decide(3), Ok(3));
    assert_eq!(node.decide(2), Ok(3));
    assert_eq!(node.decide(9), Ok(5));
    assert_eq!(node.decided_idx(), 5);
    assert_eq!(node.read_entries(1, 3), Ok(vec![2, 3]));
}

#[test]
fn reads_past_decided_are_empty() {
    let mut node = fresh();
    node.append(1).unwrap();
    node.append(2).unwrap();
    node.decide(1).unwrap();
    assert_eq!(node.read_entries(0, 2), Ok(vec![]));
    assert_eq!(node.read_entries(0, 1), Ok(vec![1]));
}

#[test]
fn reconfigure_after_decided_stopsign_fails() {
    let mut node = fresh();
    node.append(1).unwrap();
    node.append(2).unwrap();
    node.decide(2).unwrap();
    assert_eq!(node.decide_stopsign(), Ok(false));
    assert_eq!(node.reconfigure(StopSign::with(2, vec![], None)), Err(ProposeErr::ConfigError));
    assert_eq!(node.reconfigure(StopSign::with(2, vec![2, 3, 4], Some(vec![4]))), Ok(()));
    assert_eq!(node.reconfigure(StopSign::with(3, vec![2], None)), Err(ProposeErr::ConfigError));
    assert_eq!(node.append(3), Ok(3));
    assert_eq!(node.decide_stopsign(), Ok(true));
    assert_eq!(node.append(4), Err(ProposeErr::Stopped));
    assert_eq!(node.reconfigure(StopSign::with(3, vec![5], None)), Err(ProposeErr::Stopped));
    let ss = node.storage().get_stopsign().unwrap();
    assert!(ss.decided);
    assert_eq!(ss.stopsign.nodes, vec![2, 3, 4]);
    assert_eq!(node.read_entries(0, 2), Ok(vec![1, 2]));
}

#[test]
fn trim_scenario() {
    let mut node = fresh();
    for i in 1..=1000u64 {
        node.append(i).unwrap();
    }
    node.decide(1000).unwrap();
    assert_eq!(node.trim(0, 1000), Ok(()));
    assert_eq!(node.compacted_idx(), 0);
    assert_eq!(node.trim(500, 1000), Ok(()));
    assert_eq!(node.read_entries(0, 500), Ok(vec![]));
    assert_eq!(node.read_entries(500, 600), Ok((501..=600).collect::<Vec<u64>>()));
    assert_eq!(node.compacted_idx(), 500);
    assert_eq!(node.storage().get_log_len(), 1000);
}

#[test]
fn trim_past_decided_fails() {
    let mut node = fresh();
    for i in 1..=10u64 {
        node.append(i).unwrap();
    }
    node.decide(6).unwrap();
    assert_eq!(node.trim(7, 10), Err(CompactionErr::NotAllDecided));
    assert_eq!(node.trim(5, 4), Err(CompactionErr::NotAllDecided));
    assert_eq!(node.compacted_idx(), 0);
    assert_eq!(node.trim(4, 6), Ok(()));
    assert_eq!(node.compacted_idx(), 4);
}

#[test]
fn snapshot_without_snapshot_support_fails() {
    let mut node = fresh();
    node.append(1).unwrap();
    node.decide(1).unwrap();
    assert_eq!(node.snapshot(1), Err(CompactionErr::NotSnapshottable));
    assert_eq!(node.snapshot(0), Err(CompactionErr::NotSnapshottable));
    assert_eq!(node.read_entries(0, 1), Ok(vec![1]));
}

/// A snapshot of a log of numbers: their sum and count.
#[derive(Clone, Debug, PartialEq)]
struct Sum {
    total: u64,
    count: u64,
}

impl Snapshot<u64> for Sum {
    fn create(entries: &[u64]) -> Self {
        Sum { total: entries.iter().sum(), count: entries.len() as u64 }
    }

    fn merge(&mut self, delta: Self) {
        self.total += delta.total;
        self.count += delta.count;
    }

    fn use_snapshots() -> bool {
        true
    }
}

#[test]
fn snapshot_then_delta() {
    let mut node: ReplicaState<u64, Sum, Mem<u64, Sum>> = ReplicaState::recover(Mem::new()).unwrap();
    for i in 1..=1000u64 {
        node.append(i).unwrap();
    }
    node.decide(1000).unwrap();
    assert_eq!(node.snapshot(0), Ok(()));
    assert_eq!(node.snapshot(1001), Err(CompactionErr::NotAllDecided));
    assert_eq!(node.snapshot(500), Ok(()));
    assert_eq!(node.compacted_idx(), 500);
    for i in 1001..=1500u64 {
        node.append(i).unwrap();
    }
    node.decide(1500).unwrap();
    assert_eq!(node.snapshot(1200), Ok(()));
    let snap = node.storage().get_snapshot().unwrap();
    let mut state = snap.clone();
    state.merge(Sum::create(&node.read_entries(1200, 1500).unwrap()));
    assert_eq!(state, Sum::create(&(1..=1500u64).collect::<Vec<u64>>()));
    assert_eq!(snap.count, 1200);
    assert!(node.read_entries(0, 1200).unwrap().is_empty());
}

#[test]
fn accept_from_leader_overwrites_undecided_suffix() {
    let mut node = fresh();
    let b1 = Ballot::with(1, 0, 1);
    let b2 = Ballot::with(2, 0, 2);
    node.make_promise(b1).unwrap();
    assert_eq!(node.handle_accept(b1, 0, vec![1, 2, 3]), Ok(Some(3)));
    assert_eq!(node.accepted_round(), b1);
    assert_eq!(node.handle_decide(b1, 2), Ok(Some(2)));
    assert_eq!(node.handle_accept(b2, 2, vec![9]), Ok(None));
    node.make_promise(b2).unwrap();
    assert_eq!(node.handle_accept(b2, 1, vec![9]), Ok(None));
    assert_eq!(node.handle_accept(b2, 2, vec![7, 8]), Ok(Some(4)));
    assert_eq!(node.accepted_round(), b2);
    assert_eq!(node.handle_decide(b1, 4), Ok(None));
    assert_eq!(node.handle_decide(b2, 4), Ok(Some(4)));
    assert_eq!(node.read_entries(0, 4), Ok(vec![1, 2, 7, 8]));
}

#[test]
fn accept_after_decided_stopsign_is_ignored() {
    let mut node = fresh();
    let b = Ballot::with(1, 0, 1);
    node.make_promise(b).unwrap();
    assert_eq!(node.handle_accept(b, 0, vec![1]), Ok(Some(1)));
    node.reconfigure(StopSign::with(2, vec![2, 3], None)).unwrap();
    node.decide_stopsign().unwrap();
    assert_eq!(node.handle_accept(b, 1, vec![2]), Ok(None));
    assert_eq!(node.storage().get_log_len(), 1);
    assert_eq!(node.read_entries(0, 5), Ok(vec![]));
}
