use omnipaxos::ballot::Ballot;
use omnipaxos::memory_storage::MemoryStorage;
use omnipaxos::storage::{
    CachedState, NoSnapshot, Snapshot, SnapshotType, StopSign, StopSignEntry, Storage, StorageErr,
};

type Mem = MemoryStorage<u64, NoSnapshot>;

#[test]
fn stopsign_with_keeps_fields() {
    let ss = StopSign::with(2, vec![2, 3, 4], Some(vec![9]));
    assert_eq!(ss.config_id, 2);
    assert_eq!(ss.nodes, vec![2, 3, 4]);
    assert_eq!(ss.metadata, Some(vec![9]));
    let entry = StopSignEntry::with(ss, true);
    assert!(entry.decided);
    assert_eq!(entry.stopsign.config_id, 2);
}

#[test]
fn stopsign_equality_ignores_metadata() {
    let a = StopSign::with(2, vec![2, 3, 4], Some(vec![1, 2]));
    let b = StopSign::with(2, vec![2, 3, 4], None);
    let c = StopSign::with(2, vec![2, 3], None);
    let d = StopSign::with(3, vec![2, 3, 4], None);
    assert!(a == b);
    assert!(a != c);
    assert!(a != d);
    let cloned = a.clone();
    assert_eq!(cloned.metadata, Some(vec![1, 2]));
}

#[test]
fn snapshot_type_clone_keeps_variant() {
    let s: SnapshotType<u64, NoSnapshot> = SnapshotType::Delta(NoSnapshot);
    assert!(matches!(s.clone(), SnapshotType::Delta(_)));
    assert!(!<NoSnapshot as Snapshot<u64>>::use_snapshots());
}

#[test]
fn cached_state_set_then_get() {
    let mut c = CachedState::default();
    assert_eq!(c.get_decided_idx(), 0);
    assert_eq!(c.get_promise(), Ballot::default());
    let b = Ballot::with(3, 1, 2);
    c.set_promise(b);
    c.set_accepted_round(Ballot::with(2, 0, 1));
    c.set_decided_idx(7);
    c.set_compacted_idx(4);
    assert_eq!(c.get_promise(), b);
    assert_eq!(c.get_accepted_round(), Ballot::with(2, 0, 1));
    assert_eq!(c.get_decided_idx(), 7);
    assert_eq!(c.get_compacted_idx(), 4);
}

#[test]
fn ballot_order_is_lexicographic() {
    let a = Ballot::with(1, 9, 9);
    let b = Ballot::with(2, 0, 0);
    let c = Ballot::with(2, 0, 1);
    let d = Ballot::with(2, 1, 0);
    assert!(a.is_at_most(&b));
    assert!(!b.is_at_most(&a));
    assert!(b.is_at_most(&c));
    assert!(c.is_at_most(&d));
    assert!(d.is_at_most(&d));
    assert!(Ballot::default().is_at_most(&a));
}

#[test]
fn append_entries_then_read_back() {
    let mut m = Mem::new();
    assert_eq!(m.append_entry(10), Ok(1));
    let e = vec![11, 12, 13];
    assert_eq!(m.append_entries(e.clone()), Ok(4));
    let len = m.get_log_len();
    assert_eq!(m.get_entries(len - 3, len), e);
    assert_eq!(m.get_entries(0, 4), vec![10, 11, 12, 13]);
}

#[test]
fn append_on_prefix_replaces_suffix() {
    let mut m = Mem::new();
    m.append_entries(vec![1, 2, 3, 4]).unwrap();
    assert_eq!(m.append_on_prefix(2, vec![7, 8, 9]), Ok(5));
    assert_eq!(m.get_suffix(2), vec![7, 8, 9]);
    assert_eq!(m.get_entries(0, 2), vec![1, 2]);
    assert_eq!(m.append_on_prefix(5, vec![]), Ok(5));
}

#[test]
fn append_on_prefix_outside_log_fails() {
    let mut m = Mem::new();
    m.append_entries(vec![1, 2]).unwrap();
    assert_eq!(m.append_on_prefix(3, vec![5]), Err(StorageErr::LogError));
    assert_eq!(m.get_entries(0, 2), vec![1, 2]);
    m.trim(1).unwrap();
    assert_eq!(m.append_on_prefix(0, vec![5]), Err(StorageErr::LogError));
    assert_eq!(m.get_log_len(), 2);
}

#[test]
fn out_of_range_reads_are_empty() {
    let mut m = Mem::new();
    assert!(m.get_entries(0, 0).is_empty());
    assert!(m.get_entries(0, 1).is_empty());
    m.append_entries(vec![1, 2, 3]).unwrap();
    assert!(m.get_entries(2, 1).is_empty());
    assert!(m.get_entries(1, 4).is_empty());
    assert!(m.get_entries(5, 9).is_empty());
    assert!(m.get_suffix(4).is_empty());
    assert!(m.get_suffix(3).is_empty());
    assert_eq!(m.get_suffix(1), vec![2, 3]);
}

#[test]
fn trim_zero_changes_nothing() {
    let mut m = Mem::new();
    m.append_entries(vec![1, 2, 3]).unwrap();
    assert_eq!(m.trim(0), Ok(()));
    assert_eq!(m.get_entries(0, 3), vec![1, 2, 3]);
    assert_eq!(m.get_log_len(), 3);
}

#[test]
fn trim_keeps_absolute_indexing() {
    let mut m = Mem::new();
    m.append_entries((1..=10).collect()).unwrap();
    assert_eq!(m.trim(4), Ok(()));
    assert_eq!(m.get_log_len(), 10);
    assert!(m.get_entries(0, 4).is_empty());
    assert!(m.get_entries(3, 5).is_empty());
    assert_eq!(m.get_entries(4, 6), vec![5, 6]);
    assert_eq!(m.get_suffix(8), vec![9, 10]);
    assert_eq!(m.trim(2), Ok(()));
    assert_eq!(m.get_entries(4, 5), vec![5]);
    assert_eq!(m.trim(11), Err(StorageErr::LogError));
    assert_eq!(m.get_log_len(), 10);
}

#[test]
fn metadata_set_then_get() {
    let mut m = Mem::default();
    let b = Ballot::with(4, 0, 3);
    m.set_promise(b).unwrap();
    m.set_accepted_round(Ballot::with(3, 0, 2)).unwrap();
    m.set_decided_idx(5).unwrap();
    m.set_compacted_idx(2).unwrap();
    assert_eq!(m.get_promise(), b);
    assert_eq!(m.get_accepted_round(), Ballot::with(3, 0, 2));
    assert_eq!(m.get_decided_idx(), 5);
    assert_eq!(m.get_compacted_idx(), 2);
    assert!(m.get_stopsign().is_none());
    m.set_stopsign(StopSignEntry::with(StopSign::with(2, vec![1, 2], None), false))
        .unwrap();
    let ss = m.get_stopsign().unwrap();
    assert!(!ss.decided);
    assert_eq!(ss.stopsign.nodes, vec![1, 2]);
    assert!(m.get_snapshot().is_none());
}

fn fill_through_trait<B: Storage<u64, NoSnapshot>>(b: &mut B) -> Vec<u64> {
    b.append_entries(vec![1, 2, 3]).unwrap();
    b.append_entry(4).unwrap();
    b.set_decided_idx(3).unwrap();
    assert_eq!(b.get_decided_idx(), Ok(3));
    assert_eq!(b.get_log_len(), Ok(4));
    b.get_suffix(1).unwrap()
}

#[test]
fn storage_trait_on_memory() {
    let mut m = Mem::new();
    assert_eq!(fill_through_trait(&mut m), vec![2, 3, 4]);
    assert_eq!(Storage::get_entries(&m, 0, 2), Ok(vec![1, 2]));
}

#[test]
fn stopsign_equality_ignores_node_order() {
    let a = StopSign::with(2, vec![2, 3, 4], None);
    let b = StopSign::with(2, vec![4, 3, 2], Some(vec![7]));
    let c = StopSign::with(2, vec![4, 3, 2, 2], None);
    let d = StopSign::with(2, vec![4, 3, 5], None);
    assert!(a == b);
    assert!(a == c);
    assert!(a != d);
}

#[test]
fn appends_fail_after_decided_stopsign() {
    let mut m = Mem::new();
    m.append_entries(vec![1, 2]).unwrap();
    m.set_stopsign(StopSignEntry::with(StopSign::with(2, vec![2, 3], None), false)).unwrap();
    assert_eq!(m.append_entry(3), Ok(3));
    m.set_stopsign(StopSignEntry::with(StopSign::with(2, vec![2, 3], None), true)).unwrap();
    assert_eq!(m.append_entry(4), Err(StorageErr::LogError));
    assert_eq!(m.append_entries(vec![4, 5]), Err(StorageErr::LogError));
    assert_eq!(m.append_on_prefix(3, vec![4]), Err(StorageErr::LogError));
    assert_eq!(m.get_log_len(), 3);
    assert_eq!(m.get_entries(0, 3), vec![1, 2, 3]);
}

#[test]
fn reads_below_compacted_index_are_empty() {
    let mut m = Mem::new();
    m.append_entries(vec![1, 2, 3, 4]).unwrap();
    m.set_compacted_idx(2).unwrap();
    assert!(m.get_entries(1, 3).is_empty());
    assert!(m.get_suffix(0).is_empty());
    assert_eq!(m.get_entries(2, 4), vec![3, 4]);
    assert_eq!(m.append_on_prefix(1, vec![9]), Err(StorageErr::LogError));
}

#[test]
fn ballot_read_from_bytes() {
    let mut bytes = vec![];
    bytes.extend_from_slice(&7u32.to_le_bytes());
    bytes.extend_from_slice(&0x0102_0304_0506_0708u64.to_le_bytes());
    bytes.extend_from_slice(&u64::MAX.to_le_bytes());
    assert_eq!(Ballot::from_bytes(&bytes), Some(Ballot::with(7, 0x0102_0304_0506_0708, u64::MAX)));
    assert_eq!(Ballot::from_bytes(&bytes[..19]), None);
    assert_eq!(Ballot::from_bytes(&[]), None);
}
