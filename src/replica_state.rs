use vstd::prelude::*;
use core::marker::PhantomData;
use crate::ballot::Ballot;
use crate::storage::{
    CachedState, clones_of, Entry, Snapshot, StopSign, StopSignEntry, Storage, StorageErr, StorageModel,
};

verus! {

/// Why a proposal was refused.
#[derive(Clone, Copy, Debug, PartialEq, Eq, Structural)]
pub enum ProposeErr {
    /// The configuration has a decided stop-sign: it takes no further entries.
    Stopped,
    /// The reconfiguration request is malformed, or one is already pending.
    ConfigError,
    /// A durable write or read failed.
    Storage(StorageErr),
}

/// Why a compaction was refused.
#[derive(Clone, Copy, Debug, PartialEq, Eq, Structural)]
pub enum CompactionErr {
    /// The entry type takes no snapshots.
    NotSnapshottable,
    /// The index to compact to has not been decided everywhere it must be.
    NotAllDecided,
    /// A durable write or read failed.
    Storage(StorageErr),
}

/// Index `i` was decided and held in `a`, and is still held in `b`.
pub open spec fn decided_and_held<T, S>(a: StorageModel<T, S>, b: StorageModel<T, S>, i: int) -> bool {
    a.start <= i && i < a.ld && i < a.log_len() && b.start <= i
}

/// From `a` to `b` every decided entry that `b` still holds is unchanged.
pub open spec fn keeps_decided<T, S>(a: StorageModel<T, S>, b: StorageModel<T, S>) -> bool {
    forall|i: int| #[trigger] decided_and_held(a, b, i) ==> i < b.log_len() && b.entry(i) == a.entry(i)
}

/// From `a` to `b` the decided index, the promise and the accepted round only
/// move forward, removed entries stay removed, and decided entries are not changed.
pub open spec fn advances<T, S>(a: StorageModel<T, S>, b: StorageModel<T, S>) -> bool {
    &&& a.ld <= b.ld
    &&& a.start <= b.start
    &&& a.n_prom.le_spec(b.n_prom)
    &&& a.acc_round.le_spec(b.acc_round)
    &&& keeps_decided(a, b)
}

/// `snap` is what a snapshot up to `compact_to` of `m` stores: the snapshot
/// created from (clones of) the entries since the compacted index, merged into
/// (a clone of) the snapshot `m` holds if it holds one.
pub open spec fn snapshot_made<T: Entry, S: Snapshot<T>>(
    m: StorageModel<T, S>,
    compact_to: int,
    snap: Option<S>,
) -> bool {
    exists|e: Seq<T>, base: S|
        #![trigger clones_of(m.entries_between(m.compacted_idx as int, compact_to), e), cloned(base, base)]
        clones_of(m.entries_between(m.compacted_idx as int, compact_to), e) && match m.snapshot {
            Some(old) => cloned(old, base) && snap == Some(base.merged(S::created(e))),
            None => snap == Some(S::created(e)),
        }
}

/// The cache `c` holds what `m` holds.
pub open spec fn mirrors<T, S>(c: CachedState, m: StorageModel<T, S>) -> bool {
    &&& c.promise_spec() == m.n_prom
    &&& c.accepted_round_spec() == m.acc_round
    &&& c.decided_idx_spec() == m.ld
    &&& c.compacted_idx_spec() == m.compacted_idx
}

/// The durable state of one replica, with its write-through cache. Every change
/// is written to storage first and enters the cache only once the write has
/// succeeded, so the cache never runs ahead of storage.
#[verifier::reject_recursive_types(T)]
#[verifier::reject_recursive_types(S)]
pub struct ReplicaState<T: Entry, S: Snapshot<T>, B: Storage<T, S>> {
    storage: B,
    cache: CachedState,
    entry_type: PhantomData<T>,
    snapshot_type: PhantomData<S>,
}

impl<T: Entry, S: Snapshot<T>, B: Storage<T, S>> ReplicaState<T, S, B> {
    /// The cache mirrors the storage, which is well formed.
    pub closed spec fn wf(&self) -> bool {
        self.storage.inv() && mirrors(self.cache, self.storage.model())
    }

    /// What the storage holds.
    pub closed spec fn model(&self) -> StorageModel<T, S> {
        self.storage.model()
    }

    /// Loads the state kept in `storage`, as on a restart after a crash.
    pub fn recover(storage: B) -> (r: Result<Self, StorageErr>)
        requires
            storage.inv(),
        ensures
            r is Ok ==> r->Ok_0.wf() && r->Ok_0.model() == storage.model(),
    {
        let n_prom = match storage.get_promise() {
            Ok(b) => b,
            Err(e) => return Err(e),
        };
        let acc_round = match storage.get_accepted_round() {
            Ok(b) => b,
            Err(e) => return Err(e),
        };
        let ld = match storage.get_decided_idx() {
            Ok(i) => i,
            Err(e) => return Err(e),
        };
        let compacted = match storage.get_compacted_idx() {
            Ok(i) => i,
            Err(e) => return Err(e),
        };
        let mut cache = CachedState::default();
        cache.set_promise(n_prom);
        cache.set_accepted_round(acc_round);
        cache.set_decided_idx(ld);
        cache.set_compacted_idx(compacted);
        Ok(ReplicaState { storage, cache, entry_type: PhantomData, snapshot_type: PhantomData })
    }

    /// The storage, for reading.
    pub fn storage(&self) -> (r: &B)
        ensures
            r.model() == self.model(),
            self.wf() ==> r.inv(),
    {
        &self.storage
    }

    /// Gives the storage back, as when the replica stops.
    pub fn into_storage(self) -> (r: B)
        requires
            self.wf(),
        ensures
            r.inv(),
            r.model() == self.model(),
    {
        self.storage
    }

    /// The decided index.
    pub fn decided_idx(&self) -> (r: u64)
        requires
            self.wf(),
        ensures
            r == self.model().ld,
    {
        self.cache.get_decided_idx()
    }

    /// The promised round.
    pub fn promise(&self) -> (r: Ballot)
        requires
            self.wf(),
        ensures
            r == self.model().n_prom,
    {
        self.cache.get_promise()
    }

    /// The round in which entries were last accepted.
    pub fn accepted_round(&self) -> (r: Ballot)
        requires
            self.wf(),
        ensures
            r == self.model().acc_round,
    {
        self.cache.get_accepted_round()
    }

    /// The compacted index.
    pub fn compacted_idx(&self) -> (r: u64)
        requires
            self.wf(),
        ensures
            r == self.model().compacted_idx,
    {
        self.cache.get_compacted_idx()
    }

    /// Promises ballot `b` when it is above the current promise. Returns whether
    /// the promise was made; it is made only once it is durable, and only then
    /// may a promise under `b` be sent.
    pub fn make_promise(&mut self, b: Ballot) -> (r: Result<bool, StorageErr>)
        requires
            old(self).wf(),
        ensures
            final(self).wf(),
            advances(old(self).model(), final(self).model()),
            b.le_spec(old(self).model().n_prom) ==> r == Ok::<bool, StorageErr>(false)
                && final(self).model() == old(self).model(),
            !b.le_spec(old(self).model().n_prom) && r is Ok ==> r == Ok::<bool, StorageErr>(true)
                && final(self).model() == (StorageModel { n_prom: b, ..old(self).model() }),
            r is Err ==> final(self).model() == old(self).model(),
    {
        let current = self.cache.get_promise();
        if b.is_at_most(&current) {
            return Ok(false);
        }
        match self.storage.set_promise(b) {
            Ok(()) => {
                self.cache.set_promise(b);
                Ok(true)
            },
            Err(e) => Err(e),
        }
    }

    /// Records `b` as the round in which entries are accepted, when it lies
    /// between the current accepted round and the promise. Returns whether it
    /// was recorded; it is recorded only once it is durable.
    pub fn accept_round(&mut self, b: Ballot) -> (r: Result<bool, StorageErr>)
        requires
            old(self).wf(),
        ensures
            final(self).wf(),
            advances(old(self).model(), final(self).model()),
            ({
                let m = old(self).model();
                let fits = m.acc_round.le_spec(b) && b.le_spec(m.n_prom);
                &&& !fits ==> r == Ok::<bool, StorageErr>(false) && final(self).model() == m
                &&& fits && r is Ok ==> r == Ok::<bool, StorageErr>(true) && final(self).model()
                    == (StorageModel { acc_round: b, ..m })
            }),
            r is Err ==> final(self).model() == old(self).model(),
            old(self).model().acc_round.le_spec(old(self).model().n_prom)
                ==> final(self).model().acc_round.le_spec(final(self).model().n_prom),
    {
        let acc = self.cache.get_accepted_round();
        let prom = self.cache.get_promise();
        if !acc.is_at_most(&b) || !b.is_at_most(&prom) {
            return Ok(false);
        }
        match self.storage.set_accepted_round(b) {
            Ok(()) => {
                self.cache.set_accepted_round(b);
                Ok(true)
            },
            Err(e) => Err(e),
        }
    }

    /// Decides the log up to `ld`, or up to its end if it is shorter; a lower
    /// index changes nothing. Returns the decided index, which is durable.
    pub fn decide(&mut self, ld: u64) -> (r: Result<u64, StorageErr>)
        requires
            old(self).wf(),
        ensures
            final(self).wf(),
            advances(old(self).model(), final(self).model()),
            ({
                let m = old(self).model();
                let target = if ld <= m.log_len() {
                    ld as int
                } else {
                    m.log_len() as int
                };
                &&& r is Ok && target <= m.ld ==> r == Ok::<u64, StorageErr>(m.ld)
                    && final(self).model() == m
                &&& r is Ok && target > m.ld ==> r == Ok::<u64, StorageErr>(target as u64)
                    && final(self).model() == (StorageModel { ld: target as u64, ..m })
            }),
            r is Err ==> final(self).model() == old(self).model(),
    {
        let len = match self.storage.get_log_len() {
            Ok(l) => l,
            Err(e) => return Err(e),
        };
        let target = if ld <= len {
            ld
        } else {
            len
        };
        let current = self.cache.get_decided_idx();
        if target <= current {
            return Ok(current);
        }
        match self.storage.set_decided_idx(target) {
            Ok(()) => {
                self.cache.set_decided_idx(target);
                Ok(target)
            },
            Err(e) => Err(e),
        }
    }
    /// Handles `Accept{b, entries, from_idx}` from the leader: when `b` is the
    /// promised round, at or above the accepted round, `from_idx` is not below
    /// the decided index and no stop-sign is decided, the log from `from_idx` on
    /// is replaced by `entries` in round `b`, and the new log length is returned,
    /// to be sent back once it is durable. Otherwise the message is ignored
    /// (`None`).
    pub fn handle_accept(&mut self, b: Ballot, from_idx: u64, entries: Vec<T>) -> (r: Result<
        Option<u64>,
        StorageErr,
    >)
        requires
            old(self).wf(),
        ensures
            final(self).wf(),
            advances(old(self).model(), final(self).model()),
            ({
                let m = old(self).model();
                let ok = b == m.n_prom && m.acc_round.le_spec(b) && m.ld <= from_idx
                    && !m.is_stopped();
                &&& !ok && r is Ok ==> r == Ok::<Option<u64>, StorageErr>(None)
                    && final(self).model() == m
                &&& !(b == m.n_prom && m.acc_round.le_spec(b) && m.ld <= from_idx) ==> r
                    == Ok::<Option<u64>, StorageErr>(None) && final(self).model() == m
                &&& ok && r is Ok ==> r->Ok_0 is Some
                &&& r matches Ok(Some(len)) ==> ok && m.holds_range(
                    from_idx as int,
                    m.log_len() as int,
                ) && final(self).model() == (StorageModel {
                    acc_round: b,
                    ..m.replaced_from(from_idx as int, entries@)
                }) && len == final(self).model().log_len()
                &&& r is Err ==> final(self).model() == m || final(self).model() == (
                StorageModel { acc_round: b, ..m })
            }),
    {
        let prom = self.cache.get_promise();
        let acc = self.cache.get_accepted_round();
        if b != prom || !acc.is_at_most(&b) || from_idx < self.cache.get_decided_idx() {
            return Ok(None);
        }
        match self.storage.get_stopsign() {
            Err(e) => return Err(e),
            Ok(Some(ss)) => {
                if ss.decided {
                    return Ok(None);
                }
            },
            Ok(None) => {},
        }
        if acc != b {
            match self.storage.set_accepted_round(b) {
                Ok(()) => self.cache.set_accepted_round(b),
                Err(e) => return Err(e),
            }
        }
        match self.storage.append_on_prefix(from_idx, entries) {
            Ok(len) => Ok(Some(len)),
            Err(e) => Err(e),
        }
    }

    /// Handles `Decide{b, ld}` from the leader: when `b` is the accepted round,
    /// decides up to `ld` as [`ReplicaState::decide`] does and returns the
    /// decided index. Otherwise the message is ignored (`None`).
    pub fn handle_decide(&mut self, b: Ballot, ld: u64) -> (r: Result<Option<u64>, StorageErr>)
        requires
            old(self).wf(),
        ensures
            final(self).wf(),
            advances(old(self).model(), final(self).model()),
            ({
                let m = old(self).model();
                let target = if ld <= m.log_len() {
                    ld as int
                } else {
                    m.log_len() as int
                };
                let new_ld = if target > m.ld {
                    target
                } else {
                    m.ld as int
                };
                &&& b != m.acc_round ==> r == Ok::<Option<u64>, StorageErr>(None)
                    && final(self).model() == m
                &&& b == m.acc_round && r is Ok ==> r == Ok::<Option<u64>, StorageErr>(
                    Some(new_ld as u64),
                ) && final(self).model() == (StorageModel { ld: new_ld as u64, ..m })
                &&& r is Err ==> final(self).model() == m
            }),
    {
        if b != self.cache.get_accepted_round() {
            return Ok(None);
        }
        match self.decide(ld) {
            Ok(l) => Ok(Some(l)),
            Err(e) => Err(e),
        }
    }

    /// Appends `entry` to the log and returns the new log length; refused with
    /// `Stopped` once a stop-sign is decided.
    pub fn append(&mut self, entry: T) -> (r: Result<u64, ProposeErr>)
        requires
            old(self).wf(),
        ensures
            final(self).wf(),
            advances(old(self).model(), final(self).model()),
            old(self).model().is_stopped() ==> r is Err,
            r == Err::<u64, ProposeErr>(ProposeErr::Stopped) ==> old(self).model().is_stopped(),
            r is Ok ==> !old(self).model().is_stopped() && final(self).model() == old(
                self,
            ).model().appended(seq![entry]) && r->Ok_0 == final(self).model().log_len(),
            r is Err ==> final(self).model() == old(self).model(),
            !(r matches Err(ProposeErr::ConfigError)),
    {
        match self.storage.get_stopsign() {
            Err(e) => return Err(ProposeErr::Storage(e)),
            Ok(Some(ss)) => {
                if ss.decided {
                    return Err(ProposeErr::Stopped);
                }
            },
            Ok(None) => {},
        }
        match self.storage.append_entry(entry) {
            Ok(len) => Ok(len),
            Err(e) => Err(ProposeErr::Storage(e)),
        }
    }

    /// Proposes the stop-sign `ss`, which closes this configuration. Refused with
    /// `Stopped` once a stop-sign is decided, and with `ConfigError` when `ss`
    /// names no nodes or another stop-sign is pending.
    pub fn reconfigure(&mut self, ss: StopSign) -> (r: Result<(), ProposeErr>)
        requires
            old(self).wf(),
        ensures
            final(self).wf(),
            advances(old(self).model(), final(self).model()),
            old(self).model().is_stopped() ==> r == Err::<(), ProposeErr>(ProposeErr::Stopped)
                || r matches Err(ProposeErr::Storage(_)),
            r == Err::<(), ProposeErr>(ProposeErr::Stopped) ==> old(self).model().is_stopped(),
            !old(self).model().is_stopped() && (ss.nodes@.len() == 0 || old(
                self,
            ).model().stopsign is Some) ==> r is Err && r != Err::<(), ProposeErr>(
                ProposeErr::Stopped,
            ),
            r == Err::<(), ProposeErr>(ProposeErr::ConfigError) ==> !old(self).model().is_stopped()
                && (ss.nodes@.len() == 0 || old(self).model().stopsign is Some),
            r is Ok ==> old(self).model().stopsign is None && final(self).model() == (
            StorageModel { stopsign: Some((ss@, false)), ..old(self).model() }),
            r is Err ==> final(self).model() == old(self).model(),
    {
        match self.storage.get_stopsign() {
            Err(e) => return Err(ProposeErr::Storage(e)),
            Ok(Some(current)) => {
                if current.decided {
                    return Err(ProposeErr::Stopped);
                }
                return Err(ProposeErr::ConfigError);
            },
            Ok(None) => {},
        }
        if ss.nodes.len() == 0 {
            return Err(ProposeErr::ConfigError);
        }
        match self.storage.set_stopsign(StopSignEntry::with(ss, false)) {
            Ok(()) => Ok(()),
            Err(e) => Err(ProposeErr::Storage(e)),
        }
    }

    /// Marks the pending stop-sign as decided. Returns whether there was one to
    /// mark; a decided one stays as it is.
    pub fn decide_stopsign(&mut self) -> (r: Result<bool, StorageErr>)
        requires
            old(self).wf(),
        ensures
            final(self).wf(),
            advances(old(self).model(), final(self).model()),
            r is Ok ==> match old(self).model().stopsign {
                None => r == Ok::<bool, StorageErr>(false) && final(self).model() == old(
                    self,
                ).model(),
                Some((ss, _)) => r == Ok::<bool, StorageErr>(true) && final(self).model() == (
                StorageModel { stopsign: Some((ss, true)), ..old(self).model() }),
            },
            r is Err ==> final(self).model() == old(self).model(),
    {
        match self.storage.get_stopsign() {
            Err(e) => Err(e),
            Ok(None) => Ok(false),
            Ok(Some(current)) => {
                if current.decided {
                    return Ok(true);
                }
                match self.storage.set_stopsign(StopSignEntry::with(current.stopsign, true)) {
                    Ok(()) => Ok(true),
                    Err(e) => Err(e),
                }
            },
        }
    }

    /// Returns the decided entries of `[from, to)`; empty when part of the range
    /// is not decided or no longer held.
    pub fn read_entries(&self, from: u64, to: u64) -> (r: Result<Vec<T>, StorageErr>)
        requires
            self.wf(),
        ensures
            to > self.model().ld ==> r is Ok && r->Ok_0@.len() == 0,
            r is Ok ==> clones_of(
                if to <= self.model().ld {
                    self.model().entries_between(from as int, to as int)
                } else {
                    Seq::empty()
                },
                r->Ok_0@,
            ),
    {
        if to > self.cache.get_decided_idx() {
            return Ok(Vec::new());
        }
        self.storage.get_entries(from, to)
    }
    /// Removes the log before `compact_to`. `decided_by_all` is the least decided
    /// index among all replicas: trimming past it, or past this replica's decided
    /// index, is refused with `NotAllDecided`. An index at or below the compacted
    /// index changes nothing.
    pub fn trim(&mut self, compact_to: u64, decided_by_all: u64) -> (r: Result<(), CompactionErr>)
        requires
            old(self).wf(),
        ensures
            final(self).wf(),
            advances(old(self).model(), final(self).model()),
            ({
                let m = old(self).model();
                &&& compact_to > m.ld || compact_to > decided_by_all ==> r == Err::<
                    (),
                    CompactionErr,
                >(CompactionErr::NotAllDecided) && final(self).model() == m
                &&& compact_to <= m.ld && compact_to <= decided_by_all && compact_to
                    <= m.compacted_idx ==> r is Ok && final(self).model() == m
                &&& r is Ok && compact_to > m.compacted_idx ==> compact_to <= m.log_len()
                    && final(self).model() == (StorageModel {
                    compacted_idx: compact_to,
                    ..m.trimmed(compact_to as int)
                })
                &&& r == Err::<(), CompactionErr>(CompactionErr::NotAllDecided) ==> compact_to
                    > m.ld || compact_to > decided_by_all
                &&& r is Err ==> final(self).model().ld == m.ld && final(self).model().n_prom
                    == m.n_prom && final(self).model().acc_round == m.acc_round
                    && final(self).model().compacted_idx == m.compacted_idx
            }),
            r != Err::<(), CompactionErr>(CompactionErr::NotSnapshottable),
    {
        if compact_to > self.cache.get_decided_idx() || compact_to > decided_by_all {
            return Err(CompactionErr::NotAllDecided);
        }
        if compact_to <= self.cache.get_compacted_idx() {
            return Ok(());
        }
        match self.storage.trim(compact_to) {
            Ok(()) => {},
            Err(e) => return Err(CompactionErr::Storage(e)),
        }
        match self.storage.set_compacted_idx(compact_to) {
            Ok(()) => {},
            Err(e) => return Err(CompactionErr::Storage(e)),
        }
        self.cache.set_compacted_idx(compact_to);
        Ok(())
    }

    /// Replaces the decided log before `compact_to` by a snapshot: the entries
    /// since the compacted index are made into a snapshot, merged into the one
    /// already stored if there is one, and the log is trimmed. Refused with
    /// `NotSnapshottable` when the entry type takes no snapshots, and with
    /// `NotAllDecided` when `compact_to` is beyond the decided index. An index at
    /// or below the compacted index changes nothing.
    pub fn snapshot(&mut self, compact_to: u64) -> (r: Result<(), CompactionErr>)
        requires
            old(self).wf(),
        ensures
            final(self).wf(),
            advances(old(self).model(), final(self).model()),
            ({
                let m = old(self).model();
                &&& !S::enabled() ==> r == Err::<(), CompactionErr>(
                    CompactionErr::NotSnapshottable,
                ) && final(self).model() == m
                &&& S::enabled() && compact_to > m.ld ==> r == Err::<(), CompactionErr>(
                    CompactionErr::NotAllDecided,
                ) && final(self).model() == m
                &&& S::enabled() && compact_to <= m.ld && compact_to <= m.compacted_idx ==> r is Ok
                    && final(self).model() == m
                &&& r is Ok && compact_to > m.compacted_idx ==> m.holds_range(
                    m.compacted_idx as int,
                    compact_to as int,
                ) && snapshot_made(
                    m,
                    compact_to as int,
                    final(self).model().snapshot,
                ) && final(self).model() == (
                StorageModel {
                    compacted_idx: compact_to,
                    snapshot: final(self).model().snapshot,
                    ..m.trimmed(compact_to as int)
                })
                &&& r is Err ==> final(self).model().ld == m.ld && final(self).model().n_prom
                    == m.n_prom && final(self).model().acc_round == m.acc_round
            }),
    {
        if !S::use_snapshots() {
            return Err(CompactionErr::NotSnapshottable);
        }
        if compact_to > self.cache.get_decided_idx() {
            return Err(CompactionErr::NotAllDecided);
        }
        let from = self.cache.get_compacted_idx();
        if compact_to <= from {
            return Ok(());
        }
        let entries = match self.storage.get_entries(from, compact_to) {
            Ok(e) => e,
            Err(e) => return Err(CompactionErr::Storage(e)),
        };
        if entries.len() as u64 != compact_to - from {
            return Err(CompactionErr::Storage(StorageErr::LogError));
        }
        let slice = entries.as_slice();
        let delta = S::create(slice);
        let stored = match self.storage.get_snapshot() {
            Ok(s) => s,
            Err(e) => return Err(CompactionErr::Storage(e)),
        };
        let ghost read = stored;
        let merged = match stored {
            Some(base) => {
                let mut base = base;
                base.merge(delta);
                base
            },
            None => delta,
        };
        let ghost witness = match read {
            Some(b) => b,
            None => merged,
        };
        proof {
            assert(cloned(witness, witness));
            assert(snapshot_made(old(self).model(), compact_to as int, Some(merged)));
        }
        match self.storage.set_snapshot(merged) {
            Ok(()) => {},
            Err(e) => return Err(CompactionErr::Storage(e)),
        }
        match self.storage.set_compacted_idx(compact_to) {
            Ok(()) => {},
            Err(e) => return Err(CompactionErr::Storage(e)),
        }
        self.cache.set_compacted_idx(compact_to);
        match self.storage.trim(compact_to) {
            Ok(()) => {},
            Err(e) => return Err(CompactionErr::Storage(e)),
        }
        Ok(())
    }
}

/// Forward movement composes: over any run of operations of [`ReplicaState`],
/// each of which advances the state, the decided index, the promise and the
/// accepted round never move back, and no decided entry changes.
pub proof fn lemma_advances_compose<T, S>(
    a: StorageModel<T, S>,
    b: StorageModel<T, S>,
    c: StorageModel<T, S>,
)
    requires
        advances(a, b),
        advances(b, c),
    ensures
        advances(a, c),
{
    crate::ballot::lemma_order_total(a.n_prom, b.n_prom, c.n_prom);
    crate::ballot::lemma_order_total(a.acc_round, b.acc_round, c.acc_round);
    assert forall|i: int| #[trigger] decided_and_held(a, c, i) implies i < c.log_len() && c.entry(i) == a.entry(i) by {
        assert(decided_and_held(a, b, i));
        assert(b.entry(i) == a.entry(i));
        assert(decided_and_held(b, c, i));
        assert(c.entry(i) == b.entry(i));
    }
}


/// Over a run of states, each reached from the one before by an operation of
/// [`ReplicaState`] (each of which advances the state), any later state has
/// advanced from any earlier one: the decided index, the promise and the
/// accepted round never decrease, and no decided entry changes.
pub proof fn lemma_run_advances<T, S>(run: Seq<StorageModel<T, S>>, i: int, j: int)
    requires
        forall|k: int| 0 <= k < run.len() - 1 ==> advances(#[trigger] run[k], run[k + 1]),
        0 <= i <= j < run.len(),
    ensures
        advances(run[i], run[j]),
    decreases j - i,
{
    if i == j {
        crate::ballot::lemma_order_total(run[i].n_prom, run[i].n_prom, run[i].n_prom);
        crate::ballot::lemma_order_total(run[i].acc_round, run[i].acc_round, run[i].acc_round);
    } else {
        lemma_run_advances(run, i, j - 1);
        assert(advances(run[j - 1], run[j]));
        lemma_advances_compose(run[i], run[j - 1], run[j]);
    }
}

} // verus!
