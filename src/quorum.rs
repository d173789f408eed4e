use vstd::prelude::*;
use crate::ballot::Ballot;
use vstd::set_lib::{lemma_int_range, lemma_len_subset, lemma_set_intersect_union_lens, set_int_range};

verus! {

/// How many of the accepted lengths in `s` reach `l`.
pub open spec fn count_at_least(s: Seq<u64>, l: int) -> nat
    decreases s.len(),
{
    if s.len() == 0 {
        0
    } else {
        count_at_least(s.drop_last(), l) + if s.last() >= l {
            1nat
        } else {
            0nat
        }
    }
}

/// A higher bound is reached by no more lengths.
pub proof fn lemma_count_monotone(s: Seq<u64>, l1: int, l2: int)
    requires
        l1 <= l2,
    ensures
        count_at_least(s, l2) <= count_at_least(s, l1),
    decreases s.len(),
{
    if s.len() > 0 {
        lemma_count_monotone(s.drop_last(), l1, l2);
    }
}

/// Every length reaches 0.
proof fn lemma_count_zero(s: Seq<u64>)
    ensures
        count_at_least(s, 0) == s.len(),
    decreases s.len(),
{
    if s.len() > 0 {
        lemma_count_zero(s.drop_last());
    }
}

/// When some length reaches `l`, there is a least such length, and it is reached
/// by exactly the lengths that reach `l`.
proof fn lemma_least_reaching(s: Seq<u64>, l: int) -> (j: int)
    requires
        count_at_least(s, l) > 0,
    ensures
        0 <= j < s.len(),
        s[j] >= l,
        count_at_least(s, s[j] as int) == count_at_least(s, l),
        forall|k: int| 0 <= k < s.len() && s[k] >= l ==> s[j] <= s[k],
    decreases s.len(),
{
    let p = s.drop_last();
    let x = s.last();
    if count_at_least(p, l) == 0 {
        assert(x >= l);
        lemma_count_monotone(p, l, x as int);
        lemma_none_reaching(p, l);
        assert(forall|k: int| 0 <= k < p.len() ==> s[k] == p[k]);
        assert(s[s.len() - 1] == x);
        s.len() - 1
    } else {
        let i = lemma_least_reaching(p, l);
        assert(s[i] == p[i]);
        if x >= l && x < p[i] {
            lemma_same_count(p, l, x as int, p[i] as int);
            assert(s[s.len() - 1] == x);
            assert(forall|k: int| 0 <= k < p.len() ==> s[k] == p[k]);
            s.len() - 1
        } else {
            lemma_same_count(p, l, p[i] as int, p[i] as int);
            assert(forall|k: int| 0 <= k < p.len() ==> s[k] == p[k]);
            i
        }
    }
}

/// No length reaches `l` when the count is zero.
proof fn lemma_none_reaching(s: Seq<u64>, l: int)
    requires
        count_at_least(s, l) == 0,
    ensures
        forall|k: int| 0 <= k < s.len() ==> s[k] < l,
    decreases s.len(),
{
    if s.len() > 0 {
        lemma_none_reaching(s.drop_last(), l);
        assert(forall|k: int| 0 <= k < s.len() - 1 ==> s[k] == s.drop_last()[k]);
    }
}

/// Bounds between `l` and the least length that reaches `l` are reached by the
/// same lengths.
proof fn lemma_same_count(s: Seq<u64>, l: int, m: int, least: int)
    requires
        l <= m <= least,
        forall|k: int| 0 <= k < s.len() && s[k] >= l ==> least <= s[k],
    ensures
        count_at_least(s, m) == count_at_least(s, l),
    decreases s.len(),
{
    if s.len() > 0 {
        let p = s.drop_last();
        assert(forall|k: int| 0 <= k < p.len() ==> s[k] == p[k]);
        lemma_same_count(p, l, m, least);
        assert(s[s.len() - 1] == s.last());
    }
}

/// The greatest index that at least `quorum` of the replicas have accepted, given
/// the length each replica has accepted; 0 when no index is.
pub fn quorum_accepted_idx(accepted: &Vec<u64>, quorum: usize) -> (r: u64)
    requires
        quorum > 0,
    ensures
        quorum <= accepted@.len() ==> count_at_least(accepted@, r as int) >= quorum,
        forall|l: int| l > r ==> count_at_least(accepted@, l) < quorum,
{
    let mut best: u64 = 0;
    let mut i: usize = 0;
    proof {
        lemma_count_zero(accepted@);
    }
    while i < accepted.len()
        invariant
            i <= accepted@.len(),
            quorum > 0,
            best == 0 || count_at_least(accepted@, best as int) >= quorum,
            quorum <= accepted@.len() ==> count_at_least(accepted@, best as int) >= quorum,
            forall|j: int|
                0 <= j < i && count_at_least(accepted@, accepted@[j] as int) >= quorum
                    ==> accepted@[j] <= best,
        decreases accepted@.len() - i,
    {
        let v = accepted[i];
        if v > best {
            let mut n: usize = 0;
            let mut k: usize = 0;
            while k < accepted.len()
                invariant
                    k <= accepted@.len(),
                    n == count_at_least(accepted@.subrange(0, k as int), v as int),
                    n <= k,
                decreases accepted@.len() - k,
            {
                proof {
                    assert(accepted@.subrange(0, k + 1).drop_last() =~= accepted@.subrange(
                        0,
                        k as int,
                    ));
                }
                if accepted[k] >= v {
                    n = n + 1;
                }
                k = k + 1;
            }
            proof {
                assert(accepted@.subrange(0, accepted@.len() as int) =~= accepted@);
            }
            if n >= quorum {
                best = v;
            }
        }
        i = i + 1;
    }
    proof {
        assert forall|l: int| l > best implies count_at_least(accepted@, l) < quorum by {
            if count_at_least(accepted@, l) >= quorum {
                let j = lemma_least_reaching(accepted@, l);
                assert(accepted@[j] <= best);
            }
        }
    }
    best
}

/// Any two majorities of the replicas `0..n` share a replica: a log length that
/// a majority has accepted is seen by every majority that promises later.
pub proof fn lemma_majorities_intersect(a: Set<int>, b: Set<int>, n: int)
    requires
        0 <= n,
        a.subset_of(set_int_range(0, n)),
        b.subset_of(set_int_range(0, n)),
        2 * a.len() > n,
        2 * b.len() > n,
    ensures
        exists|x: int| a.contains(x) && b.contains(x),
{
    lemma_int_range(0, n);
    lemma_len_subset(a, set_int_range(0, n));
    lemma_len_subset(b, set_int_range(0, n));
    lemma_len_subset(a + b, set_int_range(0, n));
    lemma_set_intersect_union_lens(a, b);
    let both = a.intersect(b);
    assert(both.len() > 0);
    let x = both.choose();
    assert(both.contains(x)) by {
        if !both.contains(x) {
            assert(both =~= Set::empty());
        }
    }
}

/// Each length of `a` is at most the one at the same place in `b`.
pub open spec fn pointwise_le(a: Seq<u64>, b: Seq<u64>) -> bool {
    a.len() == b.len() && forall|i: int| 0 <= i < a.len() ==> #[trigger] a[i] <= b[i]
}

/// Longer accepted lengths reach any bound at least as often.
pub proof fn lemma_count_grows(a: Seq<u64>, b: Seq<u64>, l: int)
    requires
        pointwise_le(a, b),
    ensures
        count_at_least(a, l) <= count_at_least(b, l),
    decreases a.len(),
{
    if a.len() > 0 {
        let (pa, pb) = (a.drop_last(), b.drop_last());
        assert(forall|i: int| 0 <= i < pa.len() ==> pa[i] == a[i] && pb[i] == b[i]);
        lemma_count_grows(pa, pb, l);
        assert(a.last() == a[a.len() - 1] && b.last() == b[b.len() - 1]);
    }
}

/// As the accepted lengths grow, the index that a quorum has accepted does not
/// move back.
pub proof fn lemma_quorum_index_monotone(a: Seq<u64>, b: Seq<u64>, q: nat, ra: u64, rb: u64)
    requires
        pointwise_le(a, b),
        q <= a.len(),
        count_at_least(a, ra as int) >= q,
        forall|l: int| l > rb ==> count_at_least(b, l) < q,
    ensures
        ra <= rb,
{
    lemma_count_grows(a, b, ra as int);
}

/// What a leader knows of the log lengths that the replicas have accepted in
/// its round.
pub struct LeaderState {
    ballot: Ballot,
    accepted: Vec<u64>,
    quorum: usize,
}

impl LeaderState {
    pub closed spec fn ballot_spec(&self) -> Ballot {
        self.ballot
    }

    pub closed spec fn accepted_spec(&self) -> Seq<u64> {
        self.accepted@
    }

    pub closed spec fn quorum_spec(&self) -> usize {
        self.quorum
    }

    /// A leader in round `ballot` of `n` replicas, none of which has accepted
    /// anything yet.
    pub fn new(ballot: Ballot, n: usize, quorum: usize) -> (r: Self)
        ensures
            r.ballot_spec() == ballot,
            r.quorum_spec() == quorum,
            r.accepted_spec() == Seq::new(n as nat, |i: int| 0u64),
    {
        let mut accepted: Vec<u64> = Vec::new();
        let mut i: usize = 0;
        while i < n
            invariant
                i <= n,
                accepted@ == Seq::new(i as nat, |j: int| 0u64),
            decreases n - i,
        {
            accepted.push(0);
            i = i + 1;
            assert(accepted@ =~= Seq::new(i as nat, |j: int| 0u64));
        }
        LeaderState { ballot, accepted, quorum }
    }

    /// Records that replica `peer` has accepted the log up to `len` in round `b`;
    /// a message of another round, of an unknown replica or with a shorter
    /// length than already known changes nothing.
    pub fn handle_accepted(&mut self, b: Ballot, peer: usize, len: u64)
        ensures
            final(self).ballot_spec() == old(self).ballot_spec(),
            final(self).quorum_spec() == old(self).quorum_spec(),
            pointwise_le(old(self).accepted_spec(), final(self).accepted_spec()),
            final(self).accepted_spec() == if b == old(self).ballot_spec() && peer
                < old(self).accepted_spec().len() && len > old(self).accepted_spec()[peer as int] {
                old(self).accepted_spec().update(peer as int, len)
            } else {
                old(self).accepted_spec()
            },
    {
        if b == self.ballot && peer < self.accepted.len() && len > self.accepted[peer] {
            self.accepted.set(peer, len);
        }
    }

    /// The greatest index that a quorum has accepted: what the leader may decide.
    pub fn decided_idx(&self) -> (r: u64)
        requires
            self.quorum_spec() > 0,
        ensures
            self.quorum_spec() <= self.accepted_spec().len() ==> count_at_least(
                self.accepted_spec(),
                r as int,
            ) >= self.quorum_spec(),
            forall|l: int| l > r ==> count_at_least(self.accepted_spec(), l) < self.quorum_spec(),
    {
        quorum_accepted_idx(&self.accepted, self.quorum)
    }
}

} // verus!
