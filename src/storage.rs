use vstd::prelude::*;
use crate::ballot::Ballot;
use core::marker::PhantomData;

verus! {

/// Type of the entries stored in the log.
pub trait Entry: Clone + core::fmt::Debug {}

impl<T: Clone + core::fmt::Debug> Entry for T {}

/// `dst` holds, position by position, a clone of each value in `src`.
pub open spec fn clones_of<T: Clone>(src: Seq<T>, dst: Seq<T>) -> bool {
    &&& dst.len() == src.len()
    &&& forall|i: int| 0 <= i < src.len() ==> cloned(src[i], #[trigger] dst[i])
}

/// What a stop-sign says, with byte vectors seen as sequences.
pub struct StopSignModel {
    pub config_id: u32,
    pub nodes: Seq<u64>,
    pub metadata: Option<Seq<u8>>,
}

/// A StopSign entry that marks the end of a configuration. Used for reconfiguration.
#[derive(Debug)]
pub struct StopSign {
    /// The identifier for the new configuration.
    pub config_id: u32,
    /// The process ids of the new configuration.
    pub nodes: Vec<u64>,
    /// Metadata for the reconfiguration, such as a pre-elected leader for the new
    /// configuration, which can then skip the prepare phase.
    pub metadata: Option<Vec<u8>>,
}

/// The byte vector of `m`, seen as a sequence.
pub open spec fn metadata_view(m: Option<Vec<u8>>) -> Option<Seq<u8>> {
    match m {
        Some(v) => Some(v@),
        None => None,
    }
}

impl View for StopSign {
    type V = StopSignModel;

    open spec fn view(&self) -> StopSignModel {
        StopSignModel {
            config_id: self.config_id,
            nodes: self.nodes@,
            metadata: metadata_view(self.metadata),
        }
    }
}

impl StopSign {
    /// Creates a [`StopSign`].
    pub fn with(config_id: u32, nodes: Vec<u64>, metadata: Option<Vec<u8>>) -> (r: Self)
        ensures
            r.config_id == config_id,
            r.nodes == nodes,
            r.metadata == metadata,
    {
        StopSign { config_id, nodes, metadata }
    }

    /// Two stop-signs agree when they name the same configuration and the same
    /// set of nodes, in any order; the metadata is only a hint and is not compared.
    pub open spec fn agrees_with(self, other: StopSign) -> bool {
        self.config_id == other.config_id && self.nodes@.to_set() == other.nodes@.to_set()
    }
}

impl Clone for StopSign {
    fn clone(&self) -> (r: Self)
        ensures
            r@ == self@,
    {
        let metadata = match &self.metadata {
            Some(m) => Some(m.clone()),
            None => None,
        };
        let r = StopSign { config_id: self.config_id, nodes: self.nodes.clone(), metadata };
        assert(r.nodes@ =~= self.nodes@);
        assert(metadata_view(r.metadata) =~= metadata_view(self.metadata));
        r
    }
}

impl PartialEq for StopSign {
    fn eq(&self, other: &Self) -> (r: bool) {
        let r = self.config_id == other.config_id && all_contained(&self.nodes, &other.nodes)
            && all_contained(&other.nodes, &self.nodes);
        proof {
            if r {
                assert(self.nodes@.to_set() =~= other.nodes@.to_set());
            }
        }
        r
    }
}

/// Whether every node of `a` is in `b`.
fn all_contained(a: &Vec<u64>, b: &Vec<u64>) -> (r: bool)
    ensures
        r <==> a@.to_set().subset_of(b@.to_set()),
{
    let mut i: usize = 0;
    while i < a.len()
        invariant
            i <= a@.len(),
            forall|j: int| 0 <= j < i ==> b@.contains(#[trigger] a@[j]),
        decreases a@.len() - i,
    {
        let mut found = false;
        let mut k: usize = 0;
        while k < b.len()
            invariant
                i < a@.len(),
                k <= b@.len(),
                found ==> b@.contains(a@[i as int]),
                !found ==> forall|m: int| 0 <= m < k ==> b@[m] != a@[i as int],
            decreases b@.len() - k,
        {
            if b[k] == a[i] {
                found = true;
                assert(b@[k as int] == a@[i as int]);
            }
            k = k + 1;
        }
        if !found {
            assert(a@.to_set().contains(a@[i as int]));
            assert(!b@.to_set().contains(a@[i as int]));
            return false;
        }
        i = i + 1;
    }
    assert forall|x: u64| a@.to_set().contains(x) implies b@.to_set().contains(x) by {
        let j = choose|j: int| 0 <= j < a@.len() && a@[j] == x;
        assert(b@.contains(a@[j]));
    }
    true
}

impl vstd::std_specs::cmp::PartialEqSpecImpl for StopSign {
    open spec fn obeys_eq_spec() -> bool {
        true
    }

    open spec fn eq_spec(&self, other: &StopSign) -> bool {
        self.agrees_with(*other)
    }
}

/// A StopSign together with whether it has been decided.
#[derive(Debug)]
pub struct StopSignEntry {
    pub stopsign: StopSign,
    pub decided: bool,
}

impl View for StopSignEntry {
    type V = (StopSignModel, bool);

    open spec fn view(&self) -> (StopSignModel, bool) {
        (self.stopsign@, self.decided)
    }
}

impl StopSignEntry {
    /// Creates a [`StopSignEntry`].
    pub fn with(stopsign: StopSign, decided: bool) -> (r: Self)
        ensures
            r.stopsign == stopsign,
            r.decided == decided,
    {
        StopSignEntry { stopsign, decided }
    }
}

impl Clone for StopSignEntry {
    fn clone(&self) -> (r: Self)
        ensures
            r@ == self@,
    {
        StopSignEntry { stopsign: self.stopsign.clone(), decided: self.decided }
    }
}

/// The stop-sign entry `s`, seen through its view.
pub open spec fn stopsign_view(s: Option<StopSignEntry>) -> Option<(StopSignModel, bool)> {
    match s {
        Some(e) => Some(e@),
        None => None,
    }
}

/// Snapshot type. A `Complete` snapshot contains all snapshotted data while `Delta`
/// has the snapshotted changes since an earlier snapshot.
#[derive(Debug)]
#[verifier::reject_recursive_types(T)]
pub enum SnapshotType<T, S> where T: Entry, S: Snapshot<T> {
    Complete(S),
    Delta(S),
    _Phantom(PhantomData<T>),
}

impl<T: Entry, S: Snapshot<T>> Clone for SnapshotType<T, S> {
    fn clone(&self) -> (r: Self)
        ensures
            *self matches SnapshotType::Complete(s) ==> (r matches SnapshotType::Complete(c) && cloned(
                s,
                c,
            )),
            *self matches SnapshotType::Delta(s) ==> (r matches SnapshotType::Delta(c) && cloned(
                s,
                c,
            )),
            self is _Phantom ==> r is _Phantom,
    {
        match self {
            SnapshotType::Complete(s) => SnapshotType::Complete(s.clone()),
            SnapshotType::Delta(s) => SnapshotType::Delta(s.clone()),
            SnapshotType::_Phantom(_) => SnapshotType::_Phantom(PhantomData),
        }
    }
}

/// Operations that a snapshottable entry type provides. Where snapshots are not
/// wanted, [`NoSnapshot`] is the snapshot type: it reports that snapshots are off,
/// and its other operations can then never be called.
pub trait Snapshot<T: Entry>: Clone {
    /// Whether this type takes snapshots at all.
    open spec fn enabled() -> bool {
        true
    }

    /// The snapshot made from the log `entries`. A type that takes snapshots
    /// states it; the default leaves it unknown.
    open spec fn created(entries: Seq<T>) -> Self {
        arbitrary()
    }

    /// `self` with `delta` merged into it. A type that takes snapshots states it;
    /// the default leaves it unknown.
    open spec fn merged(self, delta: Self) -> Self {
        arbitrary()
    }

    /// Creates a snapshot from the log `entries`.
    fn create(entries: &[T]) -> (r: Self)
        requires
            Self::enabled(),
        ensures
            r == Self::created(entries@),
    ;

    /// Merges another snapshot `delta` into self.
    fn merge(&mut self, delta: Self)
        requires
            Self::enabled(),
        ensures
            *final(self) == old(self).merged(delta),
    ;

    /// Whether `T` is snapshottable.
    fn use_snapshots() -> (r: bool)
        ensures
            r == Self::enabled(),
    ;
}

/// The snapshot type of logs that take no snapshots.
#[derive(Clone, Copy, Debug, PartialEq, Eq, Structural)]
pub struct NoSnapshot;

impl<T: Entry> Snapshot<T> for NoSnapshot {
    open spec fn enabled() -> bool {
        false
    }

    fn create(entries: &[T]) -> Self {
        NoSnapshot
    }

    fn merge(&mut self, delta: Self) {
    }

    fn use_snapshots() -> (r: bool) {
        false
    }
}

/// The in-memory copy of the state that was last written to durable storage:
/// kept so that the state can be restored when a durable write fails.
#[derive(Clone, Copy)]
pub struct CachedState {
    /// Last cached promised round.
    n_prom: Ballot,
    /// Last cached accepted round.
    acc_round: Ballot,
    /// Length of the cached decided log.
    ld: u64,
    /// Garbage collected index.
    trimmed_idx: u64,
}

impl CachedState {
    pub closed spec fn promise_spec(self) -> Ballot {
        self.n_prom
    }

    pub closed spec fn accepted_round_spec(self) -> Ballot {
        self.acc_round
    }

    pub closed spec fn decided_idx_spec(self) -> u64 {
        self.ld
    }

    pub closed spec fn compacted_idx_spec(self) -> u64 {
        self.trimmed_idx
    }

    pub fn set_promise(&mut self, n_prom: Ballot)
        ensures
            final(self).promise_spec() == n_prom,
            final(self).accepted_round_spec() == old(self).accepted_round_spec(),
            final(self).decided_idx_spec() == old(self).decided_idx_spec(),
            final(self).compacted_idx_spec() == old(self).compacted_idx_spec(),
    {
        self.n_prom = n_prom;
    }

    pub fn set_decided_idx(&mut self, ld: u64)
        ensures
            final(self).decided_idx_spec() == ld,
            final(self).promise_spec() == old(self).promise_spec(),
            final(self).accepted_round_spec() == old(self).accepted_round_spec(),
            final(self).compacted_idx_spec() == old(self).compacted_idx_spec(),
    {
        self.ld = ld;
    }

    pub fn get_decided_idx(&self) -> (r: u64)
        ensures
            r == self.decided_idx_spec(),
    {
        self.ld
    }

    pub fn set_accepted_round(&mut self, na: Ballot)
        ensures
            final(self).accepted_round_spec() == na,
            final(self).promise_spec() == old(self).promise_spec(),
            final(self).decided_idx_spec() == old(self).decided_idx_spec(),
            final(self).compacted_idx_spec() == old(self).compacted_idx_spec(),
    {
        self.acc_round = na;
    }

    pub fn get_accepted_round(&self) -> (r: Ballot)
        ensures
            r == self.accepted_round_spec(),
    {
        self.acc_round
    }

    pub fn get_promise(&self) -> (r: Ballot)
        ensures
            r == self.promise_spec(),
    {
        self.n_prom
    }

    pub fn set_compacted_idx(&mut self, trimmed_idx: u64)
        ensures
            final(self).compacted_idx_spec() == trimmed_idx,
            final(self).promise_spec() == old(self).promise_spec(),
            final(self).accepted_round_spec() == old(self).accepted_round_spec(),
            final(self).decided_idx_spec() == old(self).decided_idx_spec(),
    {
        self.trimmed_idx = trimmed_idx;
    }

    pub fn get_compacted_idx(&self) -> (r: u64)
        ensures
            r == self.compacted_idx_spec(),
    {
        self.trimmed_idx
    }
}

impl Default for CachedState {
    fn default() -> (r: Self)
        ensures
            r.promise_spec() == (Ballot { n: 0, priority: 0, pid: 0 }),
            r.accepted_round_spec() == (Ballot { n: 0, priority: 0, pid: 0 }),
            r.decided_idx_spec() == 0,
            r.compacted_idx_spec() == 0,
    {
        Self {
            n_prom: Ballot::default(),
            acc_round: Ballot::default(),
            ld: 0,
            trimmed_idx: 0,
        }
    }
}

/// An error that describes the type of failure when writing to storage.
#[derive(Clone, Copy, Debug, PartialEq, Eq, Structural)]
pub enum StorageErr {
    LogError,
    StateError,
}

/// What a storage backend holds. The log is indexed by absolute position: the
/// entries before `start` have been physically removed, and `entries` holds
/// those from `start` on.
#[verifier::reject_recursive_types(T)]
#[verifier::reject_recursive_types(S)]
pub struct StorageModel<T, S> {
    pub start: nat,
    pub entries: Seq<T>,
    pub n_prom: Ballot,
    pub acc_round: Ballot,
    pub ld: u64,
    pub compacted_idx: u64,
    pub stopsign: Option<(StopSignModel, bool)>,
    pub snapshot: Option<S>,
}

impl<T, S> StorageModel<T, S> {
    /// The absolute length of the log.
    pub open spec fn log_len(self) -> nat {
        self.start + self.entries.len()
    }

    /// The entry at absolute index `i`, for `start <= i < log_len()`.
    pub open spec fn entry(self, i: int) -> T {
        self.entries[i - self.start]
    }

    /// The first index that can be read: entries below the compacted index are
    /// served by the snapshot, and those below `start` are gone.
    pub open spec fn first_readable(self) -> int {
        if self.start >= self.compacted_idx {
            self.start as int
        } else {
            self.compacted_idx as int
        }
    }

    /// Whether the whole of `[from, to)` is held and readable.
    pub open spec fn holds_range(self, from: int, to: int) -> bool {
        self.first_readable() <= from <= to <= self.log_len()
    }

    /// The state has a decided stop-sign: the log takes no further entries.
    pub open spec fn is_stopped(self) -> bool {
        self.stopsign matches Some((_, true))
    }

    /// The entries of `[from, to)`; empty unless the whole interval is held.
    pub open spec fn entries_between(self, from: int, to: int) -> Seq<T> {
        if self.holds_range(from, to) {
            self.entries.subrange(from - self.start, to - self.start)
        } else {
            Seq::empty()
        }
    }

    /// The entries from `from` to the end of the log.
    pub open spec fn suffix_from(self, from: int) -> Seq<T> {
        self.entries_between(from, self.log_len() as int)
    }

    /// Whether `n` more entries fit in the log.
    pub open spec fn has_room(self, n: nat) -> bool {
        self.log_len() + n <= u64::MAX && self.entries.len() + n <= usize::MAX
    }

    /// The state after `e` is appended to the log.
    pub open spec fn appended(self, e: Seq<T>) -> Self {
        StorageModel { entries: self.entries + e, ..self }
    }

    /// The state after the log from `from` on is replaced by `e`.
    pub open spec fn replaced_from(self, from: int, e: Seq<T>) -> Self {
        StorageModel { entries: self.entries.subrange(0, from - self.start) + e, ..self }
    }

    /// The state after the entries before `idx` are removed.
    pub open spec fn trimmed(self, idx: int) -> Self {
        if idx <= self.start {
            self
        } else {
            StorageModel {
                start: idx as nat,
                entries: self.entries.subrange(idx - self.start, self.entries.len() as int),
                ..self
            }
        }
    }
}

/// `r` is a clone of the snapshot `s`, or both are absent.
pub open spec fn snapshot_clone_of<S: Clone>(s: Option<S>, r: Option<S>) -> bool {
    match (s, r) {
        (Some(a), Some(b)) => cloned(a, b),
        (None, None) => true,
        _ => false,
    }
}

/// Trait for implementing the storage backend of Sequence Paxos. Each operation
/// may fail with a [`StorageErr`]; what it does when it succeeds is stated over
/// the backend's [`StorageModel`], and a write that fails changes nothing, so
/// that the in-memory copy of the state never runs ahead of the durable one.
/// Once the stored stop-sign is decided, every append fails.
pub trait Storage<T: Entry, S: Snapshot<T>> {
    /// What the backend holds. A backend verified here states it; the default
    /// leaves it unknown.
    open spec fn model(&self) -> StorageModel<T, S> {
        arbitrary()
    }

    /// The backend's own well-formedness, kept by every operation; by default
    /// there is none.
    open spec fn inv(&self) -> bool {
        true
    }

    /// Appends an entry to the end of the log and returns the log length.
    fn append_entry(&mut self, entry: T) -> (r: Result<u64, StorageErr>)
        requires
            old(self).inv(),
        ensures
            final(self).inv(),
            r is Err ==> final(self).model() == old(self).model(),
            old(self).model().is_stopped() ==> r is Err,
            r is Ok ==> final(self).model() == old(self).model().appended(seq![entry])
                && r->Ok_0 == final(self).model().log_len(),
    ;

    /// Appends the entries of `entries` to the end of the log and returns the log length.
    fn append_entries(&mut self, entries: Vec<T>) -> (r: Result<u64, StorageErr>)
        requires
            old(self).inv(),
        ensures
            final(self).inv(),
            r is Err ==> final(self).model() == old(self).model(),
            old(self).model().is_stopped() ==> r is Err,
            r is Ok ==> final(self).model() == old(self).model().appended(entries@)
                && r->Ok_0 == final(self).model().log_len(),
    ;

    /// Replaces the log from index `from_idx` on by `entries` and returns the log length.
    fn append_on_prefix(&mut self, from_idx: u64, entries: Vec<T>) -> (r: Result<u64, StorageErr>)
        requires
            old(self).inv(),
        ensures
            final(self).inv(),
            r is Err ==> final(self).model() == old(self).model(),
            old(self).model().is_stopped() ==> r is Err,
            r is Ok ==> old(self).model().holds_range(
                from_idx as int,
                old(self).model().log_len() as int,
            ) && final(self).model() == old(self).model().replaced_from(from_idx as int, entries@)
                && r->Ok_0 == final(self).model().log_len(),
    ;

    /// Sets the round that has been promised.
    fn set_promise(&mut self, n_prom: Ballot) -> (r: Result<(), StorageErr>)
        requires
            old(self).inv(),
        ensures
            final(self).inv(),
            r is Err ==> final(self).model() == old(self).model(),
            r is Ok ==> final(self).model() == (StorageModel { n_prom, ..old(self).model() }),
    ;

    /// Sets the decided index in the log.
    fn set_decided_idx(&mut self, ld: u64) -> (r: Result<(), StorageErr>)
        requires
            old(self).inv(),
        ensures
            final(self).inv(),
            r is Err ==> final(self).model() == old(self).model(),
            r is Ok ==> final(self).model() == (StorageModel { ld, ..old(self).model() }),
    ;

    /// Returns the decided index in the log.
    fn get_decided_idx(&self) -> (r: Result<u64, StorageErr>)
        requires
            self.inv(),
        ensures
            r is Ok ==> r->Ok_0 == self.model().ld,
    ;

    /// Sets the latest accepted round.
    fn set_accepted_round(&mut self, na: Ballot) -> (r: Result<(), StorageErr>)
        requires
            old(self).inv(),
        ensures
            final(self).inv(),
            r is Err ==> final(self).model() == old(self).model(),
            r is Ok ==> final(self).model() == (StorageModel { acc_round: na, ..old(self).model() }),
    ;

    /// Returns the latest round in which entries have been accepted.
    fn get_accepted_round(&self) -> (r: Result<Ballot, StorageErr>)
        requires
            self.inv(),
        ensures
            r is Ok ==> r->Ok_0 == self.model().acc_round,
    ;

    /// Returns the entries in the log in the index interval `[from, to)`, or none
    /// if the log does not hold the complete interval or part of it lies below
    /// the compacted index.
    fn get_entries(&self, from: u64, to: u64) -> (r: Result<Vec<T>, StorageErr>)
        requires
            self.inv(),
        ensures
            r is Ok ==> clones_of(self.model().entries_between(from as int, to as int), r->Ok_0@),
    ;

    /// Returns the current length of the log.
    fn get_log_len(&self) -> (r: Result<u64, StorageErr>)
        requires
            self.inv(),
        ensures
            r is Ok ==> r->Ok_0 == self.model().log_len(),
    ;

    /// Returns the suffix of entries in the log from index `from`.
    fn get_suffix(&self, from: u64) -> (r: Result<Vec<T>, StorageErr>)
        requires
            self.inv(),
        ensures
            r is Ok ==> clones_of(self.model().suffix_from(from as int), r->Ok_0@),
    ;

    /// Returns the round that has been promised.
    fn get_promise(&self) -> (r: Result<Ballot, StorageErr>)
        requires
            self.inv(),
        ensures
            r is Ok ==> r->Ok_0 == self.model().n_prom,
    ;

    /// Sets the StopSign used for reconfiguration.
    fn set_stopsign(&mut self, s: StopSignEntry) -> (r: Result<(), StorageErr>)
        requires
            old(self).inv(),
        ensures
            final(self).inv(),
            r is Err ==> final(self).model() == old(self).model(),
            r is Ok ==> final(self).model() == (StorageModel {
                stopsign: Some(s@),
                ..old(self).model()
            }),
    ;

    /// Returns the stored StopSign.
    fn get_stopsign(&self) -> (r: Result<Option<StopSignEntry>, StorageErr>)
        requires
            self.inv(),
        ensures
            r is Ok ==> stopsign_view(r->Ok_0) == self.model().stopsign,
    ;

    /// Removes the entries before index `idx` from the log.
    fn trim(&mut self, idx: u64) -> (r: Result<(), StorageErr>)
        requires
            old(self).inv(),
        ensures
            final(self).inv(),
            r is Err ==> final(self).model() == old(self).model(),
            r is Ok ==> idx <= old(self).model().log_len() && final(self).model() == old(
                self,
            ).model().trimmed(idx as int),
    ;

    /// Sets the compacted (i.e. trimmed or snapshotted) index.
    fn set_compacted_idx(&mut self, idx: u64) -> (r: Result<(), StorageErr>)
        requires
            old(self).inv(),
        ensures
            final(self).inv(),
            r is Err ==> final(self).model() == old(self).model(),
            r is Ok ==> final(self).model() == (StorageModel {
                compacted_idx: idx,
                ..old(self).model()
            }),
    ;

    /// Returns the compacted index.
    fn get_compacted_idx(&self) -> (r: Result<u64, StorageErr>)
        requires
            self.inv(),
        ensures
            r is Ok ==> r->Ok_0 == self.model().compacted_idx,
    ;

    /// Sets the snapshot.
    fn set_snapshot(&mut self, snapshot: S) -> (r: Result<(), StorageErr>)
        requires
            old(self).inv(),
            S::enabled(),
        ensures
            final(self).inv(),
            r is Err ==> final(self).model() == old(self).model(),
            r is Ok ==> final(self).model() == (StorageModel {
                snapshot: Some(snapshot),
                ..old(self).model()
            }),
    ;

    /// Returns the stored snapshot.
    fn get_snapshot(&self) -> (r: Result<Option<S>, StorageErr>)
        ensures
            r is Ok ==> snapshot_clone_of(self.model().snapshot, r->Ok_0),
    ;
}

/// Where the absolute range `[from, to)` lies in a log that holds the absolute
/// positions `[start, len)`: the physical positions `[from - start, to - start)`,
/// or `None` when the log does not hold the whole range.
pub fn held_window(start: u64, len: u64, from: u64, to: u64) -> (r: Option<(u64, u64)>)
    ensures
        r is Some <==> start <= from <= to <= len,
        r is Some ==> r->0 == ((from - start) as u64, (to - start) as u64),
{
    if from < start || from > to || to > len {
        None
    } else {
        Some((from - start, to - start))
    }
}

} // verus!
