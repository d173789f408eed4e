use vstd::prelude::*;
use crate::ballot::Ballot;
use crate::storage::StorageModel;

verus! {

/// Writing a metadata field and reading it back gives the value written, and
/// leaves the log and the other fields as they were.
pub proof fn lemma_metadata_round_trip<T, S>(m: StorageModel<T, S>, b: Ballot, idx: u64)
    ensures
        (StorageModel { n_prom: b, ..m }).n_prom == b,
        (StorageModel { acc_round: b, ..m }).acc_round == b,
        (StorageModel { ld: idx, ..m }).ld == idx,
        (StorageModel { compacted_idx: idx, ..m }).compacted_idx == idx,
        (StorageModel { n_prom: b, ..m }).entries == m.entries,
        (StorageModel { ld: idx, ..m }).n_prom == m.n_prom,
        (StorageModel { n_prom: b, ..m }).ld == m.ld,
{
}

/// After `e` is appended, the last `|e|` entries of the log are `e` (in a state
/// whose compacted index lies within the log, as in every committed state).
pub proof fn lemma_append_then_read<T, S>(m: StorageModel<T, S>, e: Seq<T>)
    requires
        m.compacted_idx <= m.log_len(),
    ensures
        ({
            let a = m.appended(e);
            &&& a.log_len() == m.log_len() + e.len()
            &&& a.entries_between(a.log_len() - e.len(), a.log_len() as int) == e
        }),
{
    let a = m.appended(e);
    assert(a.entries_between(a.log_len() - e.len(), a.log_len() as int) =~= e);
}

/// After the log is replaced from `k` on by `e`, the suffix from `k` is `e` and
/// every range below `k` reads as before.
pub proof fn lemma_prefix_then_read<T, S>(m: StorageModel<T, S>, k: int, e: Seq<T>)
    requires
        m.holds_range(k, m.log_len() as int),
    ensures
        m.replaced_from(k, e).suffix_from(k) == e,
        m.replaced_from(k, e).entries_between(0, k) == m.entries_between(0, k),
        forall|from: int, to: int|
            to <= k ==> #[trigger] m.replaced_from(k, e).entries_between(from, to)
                == m.entries_between(from, to),
{
    let p = m.replaced_from(k, e);
    assert(p.suffix_from(k) =~= e);
    assert forall|from: int, to: int| to <= k implies #[trigger] p.entries_between(from, to)
        == m.entries_between(from, to) by {
        if m.holds_range(from, to) {
            assert(p.entries_between(from, to) =~= m.entries_between(from, to));
        }
    }
}

/// A read of a range that the log does not wholly hold is empty.
pub proof fn lemma_out_of_range_is_empty<T, S>(m: StorageModel<T, S>, from: int, to: int)
    ensures
        !m.holds_range(from, to) ==> m.entries_between(from, to) == Seq::<T>::empty(),
        !(m.start <= from <= m.log_len()) ==> m.suffix_from(from) == Seq::<T>::empty(),
        from >= to ==> m.entries_between(from, to).len() == 0,
{
}

/// Trimming to index 0 changes nothing.
pub proof fn lemma_trim_zero<T, S>(m: StorageModel<T, S>)
    ensures
        m.trimmed(0) == m,
{
}

/// Trimming keeps every entry at or after the trim index readable under its
/// absolute index, and the absolute length of the log.
pub proof fn lemma_trim_keeps_suffix<T, S>(m: StorageModel<T, S>, idx: int, from: int, to: int)
    requires
        idx <= m.log_len(),
        idx <= from,
        m.start <= from,
    ensures
        m.trimmed(idx).log_len() == m.log_len(),
        m.trimmed(idx).entries_between(from, to) == m.entries_between(from, to),
{
    let t = m.trimmed(idx);
    if m.holds_range(from, to) {
        assert(t.entries_between(from, to) =~= m.entries_between(from, to));
    }
}

} // verus!
