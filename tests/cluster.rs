use omnipaxos::ballot::Ballot;
use omnipaxos::election::choose_promise;
use omnipaxos::leader_election::BallotLeaderElection;
use omnipaxos::memory_storage::MemoryStorage;
use omnipaxos::quorum::quorum_accepted_idx;
use omnipaxos::replica_state::ReplicaState;
use omnipaxos::storage::NoSnapshot;

type Node = ReplicaState<u64, NoSnapshot, MemoryStorage<u64, NoSnapshot>>;

fn nodes(n: usize) -> Vec<Node> {
    (0..n).map(|_| ReplicaState::recover(MemoryStorage::new()).unwrap()).collect()
}

/// The leader at `leader` replicates `v` to the live nodes and decides what a
/// quorum of them has accepted.
fn replicate(cluster: &mut [Node], alive: &[usize], leader: usize, b: Ballot, v: u64, quorum: usize) {
    let from = cluster[leader].storage().get_log_len();
    let mut lengths = vec![];
    for &i in alive {
        lengths.push(cluster[i].handle_accept(b, from, vec![v]).unwrap().unwrap());
    }
    let decided = quorum_accepted_idx(&lengths, quorum);
    for &i in alive {
        cluster[i].handle_decide(b, decided).unwrap();
    }
}

#[test]
fn happy_path_five_nodes() {
    let mut cluster = nodes(5);
    let all = [0, 1, 2, 3, 4];
    let b = Ballot::with(1, 0, 3);
    for node in cluster.iter_mut() {
        assert_eq!(node.make_promise(b), Ok(true));
    }
    for v in 1..=100u64 {
        replicate(&mut cluster, &all, 2, b, v, 3);
    }
    let expected: Vec<u64> = (1..=100).collect();
    for node in &cluster {
        assert_eq!(node.decided_idx(), 100);
        assert_eq!(node.read_entries(0, 100), Ok(expected.clone()));
        assert_eq!(node.promise(), b);
    }
}

#[test]
fn leader_failure_mid_stream() {
    let mut cluster = nodes(5);
    let all = [0, 1, 2, 3, 4];
    let b1 = Ballot::with(1, 1, 3);
    for node in cluster.iter_mut() {
        node.make_promise(b1).unwrap();
    }
    for v in 1..=50u64 {
        replicate(&mut cluster, &all, 2, b1, v, 3);
    }

    // node 3 is gone; node 4 stops hearing it and takes over in a fresh round
    let mut ble = BallotLeaderElection::new(Ballot::with(1, 0, 4), 3);
    for b in [Ballot::with(0, 0, 1), Ballot::with(0, 0, 2), b1, Ballot::with(0, 0, 5)] {
        ble.handle_reply(0, b);
    }
    assert_eq!(ble.tick(), (1, Some(b1)));
    for b in [Ballot::with(0, 0, 1), Ballot::with(0, 0, 2), Ballot::with(0, 0, 5)] {
        ble.handle_reply(1, b);
    }
    let (_, published) = ble.tick();
    let b2 = published.unwrap();
    assert_eq!(b2, Ballot::with(2, 0, 4));

    let alive = [0, 1, 3, 4];
    let mut promises = vec![];
    for &i in &alive {
        assert_eq!(cluster[i].make_promise(b2), Ok(true));
        promises.push((cluster[i].accepted_round(), cluster[i].storage().get_log_len()));
    }
    let chosen = alive[choose_promise(&promises).unwrap()];
    let ld = alive.iter().map(|&i| cluster[i].decided_idx()).max().unwrap();
    let suffix = cluster[chosen].storage().get_suffix(ld);
    for &i in &alive {
        assert!(cluster[i].handle_accept(b2, ld, suffix.clone()).unwrap().is_some());
    }
    for v in 51..=100u64 {
        replicate(&mut cluster, &alive, 3, b2, v, 3);
    }
    let expected: Vec<u64> = (1..=100).collect();
    for &i in &alive {
        assert_eq!(cluster[i].decided_idx(), 100);
        assert_eq!(cluster[i].read_entries(0, 100), Ok(expected.clone()));
    }
    assert_eq!(cluster[2].decided_idx(), 50);
}
