use vstd::prelude::*;
use crate::ballot::Ballot;

verus! {

/// One heartbeat round's outcome: when at least `quorum` candidates answered
/// (this node included), the greatest of their ballots leads; otherwise there is
/// no leader this round.
pub fn elect_leader(candidates: &Vec<Ballot>, quorum: usize) -> (r: Option<Ballot>)
    ensures
        r is Some <==> candidates@.len() >= quorum && candidates@.len() > 0,
        r matches Some(b) ==> candidates@.contains(b) && forall|i: int|
            0 <= i < candidates@.len() ==> #[trigger] candidates@[i].le_spec(b),
{
    if candidates.len() < quorum || candidates.len() == 0 {
        return None;
    }
    let mut best = candidates[0];
    let mut i: usize = 1;
    while i < candidates.len()
        invariant
            1 <= i <= candidates@.len(),
            candidates@.contains(best),
            forall|j: int| 0 <= j < i ==> #[trigger] candidates@[j].le_spec(best),
        decreases candidates@.len() - i,
    {
        let c = candidates[i];
        if best.is_at_most(&c) {
            proof {
                assert forall|j: int| 0 <= j < i implies #[trigger] candidates@[j].le_spec(c) by {
                    crate::ballot::lemma_order_total(candidates@[j], best, c);
                }
            }
            best = c;
        } else {
            proof {
                crate::ballot::lemma_order_total(best, c, c);
            }
        }
        i = i + 1;
    }
    Some(best)
}

/// The order of promises in the prepare phase: by accepted round, then by the
/// length of the log that was promised.
pub open spec fn promise_le(a: (Ballot, u64), b: (Ballot, u64)) -> bool {
    a.0.le_spec(b.0) && (a.0 == b.0 ==> a.1 <= b.1)
}

/// The order of promises is total and transitive.
proof fn lemma_promise_order(a: (Ballot, u64), b: (Ballot, u64), c: (Ballot, u64))
    ensures
        promise_le(a, b) || promise_le(b, a),
        promise_le(a, b) && promise_le(b, c) ==> promise_le(a, c),
{
    crate::ballot::lemma_order_total(a.0, b.0, c.0);
    crate::ballot::lemma_order_total(b.0, a.0, c.0);
}

/// Which of the promises `(accepted round, log length)` gathered by a new leader
/// holds the log to adopt: the greatest in [`promise_le`], the first of them on
/// a tie; `None` when there are none.
pub fn choose_promise(promises: &Vec<(Ballot, u64)>) -> (r: Option<usize>)
    ensures
        r is None <==> promises@.len() == 0,
        r matches Some(i) ==> i < promises@.len() && (forall|j: int|
            0 <= j < promises@.len() ==> #[trigger] promise_le(promises@[j], promises@[i as int]))
            && (forall|j: int|
            0 <= j < i ==> !#[trigger] promise_le(promises@[i as int], promises@[j])),
{
    if promises.len() == 0 {
        return None;
    }
    let mut best: usize = 0;
    let mut i: usize = 1;
    while i < promises.len()
        invariant
            1 <= i <= promises@.len(),
            best < i,
            forall|j: int| 0 <= j < i ==> #[trigger] promise_le(promises@[j], promises@[best as int]),
            forall|j: int| 0 <= j < best ==> !#[trigger] promise_le(promises@[best as int], promises@[j]),
        decreases promises@.len() - i,
    {
        let (b_round, b_len) = promises[best];
        let (c_round, c_len) = promises[i];
        let better = if b_round == c_round {
            b_len < c_len
        } else {
            b_round.is_at_most(&c_round)
        };
        proof {
            crate::ballot::lemma_order_total(b_round, c_round, c_round);
            assert(better <==> !promise_le(promises@[i as int], promises@[best as int]));
            lemma_promise_order(promises@[i as int], promises@[best as int], promises@[best as int]);
        }
        if better {
            proof {
                assert forall|j: int| 0 <= j < i + 1 implies #[trigger] promise_le(
                    promises@[j],
                    promises@[i as int],
                ) by {
                    if j < i {
                        assert(promise_le(promises@[j], promises@[best as int]));
                        lemma_promise_order(promises@[j], promises@[best as int], promises@[i as int]);
                    } else {
                        lemma_promise_order(promises@[j], promises@[j], promises@[j]);
                    }
                }
                assert forall|j: int| 0 <= j < i implies !#[trigger] promise_le(
                    promises@[i as int],
                    promises@[j],
                ) by {
                    assert(promise_le(promises@[j], promises@[best as int]));
                    lemma_promise_order(promises@[i as int], promises@[j], promises@[best as int]);
                }
            }
            best = i;
        }
        i = i + 1;
    }
    Some(best)
}

} // verus!
