use vstd::prelude::*;
use crate::ballot::Ballot;
use crate::storage::{
    clones_of, held_window, snapshot_clone_of, stopsign_view, Entry, Snapshot, StopSignEntry, Storage,
    StorageErr, StorageModel,
};

verus! {

/// An in-memory storage implementation for SequencePaxos.
#[verifier::reject_recursive_types(T)]
#[verifier::reject_recursive_types(S)]
pub struct MemoryStorage<T, S> where T: Entry, S: Snapshot<T> {
    /// The logged entries from absolute index `log_start` on.
    log: Vec<T>,
    /// Number of entries physically removed from the front of the log.
    log_start: u64,
    /// Last promised round.
    n_prom: Ballot,
    /// Last accepted round.
    acc_round: Ballot,
    /// Length of the decided log.
    ld: u64,
    /// Garbage collected index.
    trimmed_idx: u64,
    /// Stored snapshot
    snapshot: Option<S>,
    /// Stored StopSign
    stopsign: Option<StopSignEntry>,
}

impl<T: Entry, S: Snapshot<T>> MemoryStorage<T, S> {
    /// The absolute log length fits in a `u64`.
    pub closed spec fn inv(&self) -> bool {
        self.log_start + self.log@.len() <= u64::MAX
    }

    /// What the storage holds.
    pub closed spec fn view_model(&self) -> StorageModel<T, S> {
        StorageModel {
            start: self.log_start as nat,
            entries: self.log@,
            n_prom: self.n_prom,
            acc_round: self.acc_round,
            ld: self.ld,
            compacted_idx: self.trimmed_idx,
            stopsign: stopsign_view(self.stopsign),
            snapshot: self.snapshot,
        }
    }

    /// A storage with an empty log and every field at its initial value.
    pub fn new() -> (r: Self)
        ensures
            r.inv(),
            r.view_model() == (StorageModel::<T, S> {
                start: 0,
                entries: Seq::empty(),
                n_prom: Ballot { n: 0, priority: 0, pid: 0 },
                acc_round: Ballot { n: 0, priority: 0, pid: 0 },
                ld: 0,
                compacted_idx: 0,
                stopsign: None,
                snapshot: None,
            }),
    {
        MemoryStorage {
            log: Vec::new(),
            log_start: 0,
            n_prom: Ballot::default(),
            acc_round: Ballot::default(),
            ld: 0,
            trimmed_idx: 0,
            snapshot: None,
            stopsign: None,
        }
    }

    /// The absolute length of the log.
    pub fn get_log_len(&self) -> (r: u64)
        requires
            self.inv(),
        ensures
            r == self.view_model().log_len(),
    {
        self.log_start + self.log.len() as u64
    }

    /// Whether the stored stop-sign is decided.
    fn stopped(&self) -> (r: bool)
        ensures
            r == self.view_model().is_stopped(),
    {
        match &self.stopsign {
            Some(s) => s.decided,
            None => false,
        }
    }

    /// Appends an entry to the end of the log and returns the log length; fails
    /// with `LogError`, changing nothing, when the log is full or the stored
    /// stop-sign is decided.
    pub fn append_entry(&mut self, entry: T) -> (r: Result<u64, StorageErr>)
        requires
            old(self).inv(),
        ensures
            final(self).inv(),
            old(self).view_model().has_room(1) && !old(self).view_model().is_stopped() ==> r == Ok::<u64, StorageErr>(
                final(self).view_model().log_len() as u64,
            ) && final(self).view_model() == old(self).view_model().appended(seq![entry]),
            !old(self).view_model().has_room(1) || old(self).view_model().is_stopped() ==> r == Err::<u64, StorageErr>(
                StorageErr::LogError,
            ) && final(self).view_model() == old(self).view_model(),
    {
        if self.stopped() || self.log.len() == usize::MAX || self.get_log_len() == u64::MAX {
            return Err(StorageErr::LogError);
        }
        self.log.push(entry);
        assert(self.log@ =~= old(self).log@ + seq![entry]);
        Ok(self.get_log_len())
    }
    /// Appends the entries of `entries` to the end of the log and returns the log
    /// length; fails with `LogError`, changing nothing, when they do not fit or
    /// the stored stop-sign is decided.
    pub fn append_entries(&mut self, entries: Vec<T>) -> (r: Result<u64, StorageErr>)
        requires
            old(self).inv(),
        ensures
            final(self).inv(),
            old(self).view_model().has_room(entries@.len()) && !old(self).view_model().is_stopped() ==> r == Ok::<u64, StorageErr>(
                final(self).view_model().log_len() as u64,
            ) && final(self).view_model() == old(self).view_model().appended(entries@),
            !old(self).view_model().has_room(entries@.len()) || old(self).view_model().is_stopped() ==> r == Err::<u64, StorageErr>(
                StorageErr::LogError,
            ) && final(self).view_model() == old(self).view_model(),
    {
        let len = self.get_log_len();
        if self.stopped() || entries.len() > usize::MAX - self.log.len() || entries.len() as u64
            > u64::MAX - len {
            return Err(StorageErr::LogError);
        }
        let mut e = entries;
        self.log.append(&mut e);
        Ok(self.get_log_len())
    }

    /// Replaces the log from absolute index `from_idx` on by `entries` and returns
    /// the log length. Fails with `LogError`, changing nothing, when `from_idx` lies
    /// outside the readable part `[first_readable, log_len]`, the new log would not
    /// fit, or the stored stop-sign is decided.
    pub fn append_on_prefix(&mut self, from_idx: u64, entries: Vec<T>) -> (r: Result<
        u64,
        StorageErr,
    >)
        requires
            old(self).inv(),
        ensures
            final(self).inv(),
            ({
                let m = old(self).view_model();
                let ok = !m.is_stopped() && m.holds_range(from_idx as int, m.log_len() as int) && m.replaced_from(
                    from_idx as int,
                    Seq::empty(),
                ).has_room(entries@.len());
                &&& ok ==> r == Ok::<u64, StorageErr>(final(self).view_model().log_len() as u64)
                    && final(self).view_model() == m.replaced_from(from_idx as int, entries@)
                &&& !ok ==> r == Err::<u64, StorageErr>(StorageErr::LogError)
                    && final(self).view_model() == m
            }),
    {
        let len = self.get_log_len();
        if self.stopped() || from_idx < self.log_start || from_idx < self.trimmed_idx || from_idx
            > len {
            return Err(StorageErr::LogError);
        }
        let keep = (from_idx - self.log_start) as usize;
        if entries.len() > usize::MAX - keep || entries.len() as u64 > u64::MAX - from_idx {
            return Err(StorageErr::LogError);
        }
        self.log.truncate(keep);
        let mut e = entries;
        self.log.append(&mut e);
        Ok(self.get_log_len())
    }

    /// Sets the round that has been promised.
    pub fn set_promise(&mut self, n_prom: Ballot) -> (r: Result<(), StorageErr>)
        requires
            old(self).inv(),
        ensures
            final(self).inv(),
            r is Ok,
            final(self).view_model() == (StorageModel { n_prom, ..old(self).view_model() }),
    {
        self.n_prom = n_prom;
        Ok(())
    }

    /// Sets the decided index in the log.
    pub fn set_decided_idx(&mut self, ld: u64) -> (r: Result<(), StorageErr>)
        requires
            old(self).inv(),
        ensures
            final(self).inv(),
            r is Ok,
            final(self).view_model() == (StorageModel { ld, ..old(self).view_model() }),
    {
        self.ld = ld;
        Ok(())
    }

    /// Returns the decided index in the log.
    pub fn get_decided_idx(&self) -> (r: u64)
        ensures
            r == self.view_model().ld,
    {
        self.ld
    }

    /// Sets the latest accepted round.
    pub fn set_accepted_round(&mut self, na: Ballot) -> (r: Result<(), StorageErr>)
        requires
            old(self).inv(),
        ensures
            final(self).inv(),
            r is Ok,
            final(self).view_model() == (StorageModel { acc_round: na, ..old(self).view_model() }),
    {
        self.acc_round = na;
        Ok(())
    }

    /// Returns the latest round in which entries have been accepted.
    pub fn get_accepted_round(&self) -> (r: Ballot)
        ensures
            r == self.view_model().acc_round,
    {
        self.acc_round
    }

    /// Clones the held entries at physical positions `[lo, hi)`.
    fn clone_range(&self, lo: usize, hi: usize) -> (r: Vec<T>)
        requires
            lo <= hi <= self.log@.len(),
        ensures
            clones_of(self.log@.subrange(lo as int, hi as int), r@),
    {
        let mut r: Vec<T> = Vec::new();
        let mut i: usize = lo;
        while i < hi
            invariant
                lo <= i <= hi <= self.log@.len(),
                r@.len() == i - lo,
                forall|j: int|
                    0 <= j < i - lo ==> #[trigger] cloned(
                        self.log@.subrange(lo as int, hi as int)[j],
                        r@[j],
                    ),
            decreases hi - i,
        {
            r.push(self.log[i].clone());
            i = i + 1;
        }
        r
    }

    /// Returns the entries in the log in the index interval `[from, to)`; empty
    /// when the log does not hold the complete interval or part of it lies below
    /// the compacted index.
    pub fn get_entries(&self, from: u64, to: u64) -> (r: Vec<T>)
        requires
            self.inv(),
        ensures
            clones_of(self.view_model().entries_between(from as int, to as int), r@),
    {
        let held = self.log.len();
        let first = if self.log_start >= self.trimmed_idx {
            self.log_start
        } else {
            self.trimmed_idx
        };
        if from < first {
            return Vec::new();
        }
        match held_window(self.log_start, self.get_log_len(), from, to) {
            Some((lo, hi)) => {
                assert(hi <= held);
                self.clone_range(lo as usize, hi as usize)
            },
            None => Vec::new(),
        }
    }

    /// Returns the suffix of entries in the log from index `from`; empty when
    /// `from` lies outside the held part of the log.
    pub fn get_suffix(&self, from: u64) -> (r: Vec<T>)
        requires
            self.inv(),
        ensures
            clones_of(self.view_model().suffix_from(from as int), r@),
    {
        let len = self.get_log_len();
        self.get_entries(from, len)
    }

    /// Returns the round that has been promised.
    pub fn get_promise(&self) -> (r: Ballot)
        ensures
            r == self.view_model().n_prom,
    {
        self.n_prom
    }

    /// Sets the StopSign used for reconfiguration.
    pub fn set_stopsign(&mut self, s: StopSignEntry) -> (r: Result<(), StorageErr>)
        requires
            old(self).inv(),
        ensures
            final(self).inv(),
            r is Ok,
            final(self).view_model() == (StorageModel {
                stopsign: Some(s@),
                ..old(self).view_model()
            }),
    {
        self.stopsign = Some(s);
        Ok(())
    }

    /// Returns the stored StopSign.
    pub fn get_stopsign(&self) -> (r: Option<StopSignEntry>)
        ensures
            stopsign_view(r) == self.view_model().stopsign,
    {
        match &self.stopsign {
            Some(s) => Some(s.clone()),
            None => None,
        }
    }

    /// Removes the entries before absolute index `idx` from the log; an index at or
    /// below the current start changes nothing. Fails with `LogError`, changing
    /// nothing, when `idx` is beyond the end of the log.
    pub fn trim(&mut self, idx: u64) -> (r: Result<(), StorageErr>)
        requires
            old(self).inv(),
        ensures
            final(self).inv(),
            idx <= old(self).view_model().log_len() ==> r is Ok && final(self).view_model()
                == old(self).view_model().trimmed(idx as int),
            idx > old(self).view_model().log_len() ==> r == Err::<(), StorageErr>(
                StorageErr::LogError,
            ) && final(self).view_model() == old(self).view_model(),
    {
        let len = self.get_log_len();
        if idx > len {
            return Err(StorageErr::LogError);
        }
        if idx > self.log_start {
            let held = self.log.len();
            let cut = idx - self.log_start;
            assert(cut <= held);
            let rest = self.log.split_off(cut as usize);
            self.log = rest;
            self.log_start = idx;
        }
        Ok(())
    }

    /// Sets the compacted (i.e. trimmed or snapshotted) index.
    pub fn set_compacted_idx(&mut self, idx: u64) -> (r: Result<(), StorageErr>)
        requires
            old(self).inv(),
        ensures
            final(self).inv(),
            r is Ok,
            final(self).view_model() == (StorageModel {
                compacted_idx: idx,
                ..old(self).view_model()
            }),
    {
        self.trimmed_idx = idx;
        Ok(())
    }

    /// Returns the compacted index.
    pub fn get_compacted_idx(&self) -> (r: u64)
        ensures
            r == self.view_model().compacted_idx,
    {
        self.trimmed_idx
    }

    /// Sets the snapshot.
    pub fn set_snapshot(&mut self, snapshot: S) -> (r: Result<(), StorageErr>)
        requires
            old(self).inv(),
        ensures
            final(self).inv(),
            r is Ok,
            final(self).view_model() == (StorageModel {
                snapshot: Some(snapshot),
                ..old(self).view_model()
            }),
    {
        self.snapshot = Some(snapshot);
        Ok(())
    }

    /// Returns the stored snapshot.
    pub fn get_snapshot(&self) -> (r: Option<S>)
        ensures
            snapshot_clone_of(self.view_model().snapshot, r),
    {
        match &self.snapshot {
            Some(s) => Some(s.clone()),
            None => None,
        }
    }
}

impl<T: Entry, S: Snapshot<T>> Storage<T, S> for MemoryStorage<T, S> {
    open spec fn model(&self) -> StorageModel<T, S> {
        self.view_model()
    }

    open spec fn inv(&self) -> bool {
        MemoryStorage::inv(self)
    }

    fn append_entry(&mut self, entry: T) -> (r: Result<u64, StorageErr>) {
        MemoryStorage::append_entry(self, entry)
    }

    fn append_entries(&mut self, entries: Vec<T>) -> (r: Result<u64, StorageErr>) {
        MemoryStorage::append_entries(self, entries)
    }

    fn append_on_prefix(&mut self, from_idx: u64, entries: Vec<T>) -> (r: Result<u64, StorageErr>) {
        MemoryStorage::append_on_prefix(self, from_idx, entries)
    }

    fn set_promise(&mut self, n_prom: Ballot) -> (r: Result<(), StorageErr>) {
        MemoryStorage::set_promise(self, n_prom)
    }

    fn set_decided_idx(&mut self, ld: u64) -> (r: Result<(), StorageErr>) {
        MemoryStorage::set_decided_idx(self, ld)
    }

    fn get_decided_idx(&self) -> (r: Result<u64, StorageErr>) {
        Ok(MemoryStorage::get_decided_idx(self))
    }

    fn set_accepted_round(&mut self, na: Ballot) -> (r: Result<(), StorageErr>) {
        MemoryStorage::set_accepted_round(self, na)
    }

    fn get_accepted_round(&self) -> (r: Result<Ballot, StorageErr>) {
        Ok(MemoryStorage::get_accepted_round(self))
    }

    fn get_entries(&self, from: u64, to: u64) -> (r: Result<Vec<T>, StorageErr>) {
        Ok(MemoryStorage::get_entries(self, from, to))
    }

    fn get_log_len(&self) -> (r: Result<u64, StorageErr>) {
        Ok(MemoryStorage::get_log_len(self))
    }

    fn get_suffix(&self, from: u64) -> (r: Result<Vec<T>, StorageErr>) {
        Ok(MemoryStorage::get_suffix(self, from))
    }

    fn get_promise(&self) -> (r: Result<Ballot, StorageErr>) {
        Ok(MemoryStorage::get_promise(self))
    }

    fn set_stopsign(&mut self, s: StopSignEntry) -> (r: Result<(), StorageErr>) {
        MemoryStorage::set_stopsign(self, s)
    }

    fn get_stopsign(&self) -> (r: Result<Option<StopSignEntry>, StorageErr>) {
        Ok(MemoryStorage::get_stopsign(self))
    }

    fn trim(&mut self, idx: u64) -> (r: Result<(), StorageErr>) {
        MemoryStorage::trim(self, idx)
    }

    fn set_compacted_idx(&mut self, idx: u64) -> (r: Result<(), StorageErr>) {
        MemoryStorage::set_compacted_idx(self, idx)
    }

    fn get_compacted_idx(&self) -> (r: Result<u64, StorageErr>) {
        Ok(MemoryStorage::get_compacted_idx(self))
    }

    fn set_snapshot(&mut self, snapshot: S) -> (r: Result<(), StorageErr>) {
        MemoryStorage::set_snapshot(self, snapshot)
    }

    fn get_snapshot(&self) -> (r: Result<Option<S>, StorageErr>) {
        Ok(MemoryStorage::get_snapshot(self))
    }
}

impl<T: Entry, S: Snapshot<T>> Default for MemoryStorage<T, S> {
    fn default() -> (r: Self)
        ensures
            r.inv(),
            r.view_model().start == 0,
            r.view_model().entries.len() == 0,
            r.view_model().n_prom == (Ballot { n: 0, priority: 0, pid: 0 }),
            r.view_model().acc_round == (Ballot { n: 0, priority: 0, pid: 0 }),
            r.view_model().ld == 0,
            r.view_model().compacted_idx == 0,
            r.view_model().stopsign is None,
            r.view_model().snapshot is None,
    {
        MemoryStorage::new()
    }
}

} // verus!
