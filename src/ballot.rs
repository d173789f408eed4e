use vstd::prelude::*;

verus! {

/// A round identifier, ordered lexicographically by `(n, priority, pid)`.
#[derive(Clone, Copy, Debug, PartialEq, Eq, Structural)]
pub struct Ballot {
    /// Round counter.
    pub n: u32,
    /// Tie-breaker that favours preferred leaders.
    pub priority: u64,
    /// Process id of the node that owns the ballot.
    pub pid: u64,
}

impl Ballot {
    /// Creates a ballot from its three components.
    pub fn with(n: u32, priority: u64, pid: u64) -> (r: Ballot)
        ensures
            r == (Ballot { n, priority, pid }),
    {
        Ballot { n, priority, pid }
    }

    /// The lexicographic order on ballots, as a relation.
    pub open spec fn le_spec(self, other: Ballot) -> bool {
        self.n < other.n || (self.n == other.n && (self.priority < other.priority || (
        self.priority == other.priority && self.pid <= other.pid)))
    }

    /// Whether `self` comes no later than `other` in the ballot order.
    pub fn is_at_most(&self, other: &Ballot) -> (r: bool)
        ensures
            r == self.le_spec(*other),
    {
        if self.n != other.n {
            self.n < other.n
        } else if self.priority != other.priority {
            self.priority < other.priority
        } else {
            self.pid <= other.pid
        }
    }
}

impl Default for Ballot {
    /// The minimum of the ballot order.
    fn default() -> (r: Ballot)
        ensures
            r == (Ballot { n: 0, priority: 0, pid: 0 }),
    {
        Ballot { n: 0, priority: 0, pid: 0 }
    }
}

/// The default ballot precedes every ballot.
pub proof fn lemma_default_is_minimum(b: Ballot)
    ensures
        (Ballot { n: 0, priority: 0, pid: 0 }).le_spec(b),
{
}

/// The ballot order is total and transitive.
pub proof fn lemma_order_total(a: Ballot, b: Ballot, c: Ballot)
    ensures
        a.le_spec(b) || b.le_spec(a),
        a.le_spec(b) && b.le_spec(a) ==> a == b,
        a.le_spec(b) && b.le_spec(c) ==> a.le_spec(c),
{
}


/// The number that the bytes `s` spell, least significant byte first.
pub open spec fn le_value(s: Seq<u8>) -> nat
    decreases s.len(),
{
    if s.len() == 0 {
        0
    } else {
        (s[0] + 256 * le_value(s.drop_first())) as nat
    }
}

/// `256` to the power `n`.
pub open spec fn pow256(n: nat) -> nat
    decreases n,
{
    if n == 0 {
        1
    } else {
        256 * pow256((n - 1) as nat)
    }
}

/// `k` bytes spell a number below `256^k`.
proof fn lemma_le_value_bound(s: Seq<u8>)
    ensures
        le_value(s) < pow256(s.len()),
    decreases s.len(),
{
    if s.len() > 0 {
        let rest = s.drop_first();
        lemma_le_value_bound(rest);
        let (a, b, p) = (s[0] as int, le_value(rest) as int, pow256(rest.len()) as int);
        assert(a + 256 * b < 256 * p) by (nonlinear_arith)
            requires
                0 <= a < 256,
                0 <= b < p,
        ;
    }
}

/// Reads the number that `b[lo..hi]` spells, least significant byte first.
fn read_le(b: &[u8], lo: usize, hi: usize) -> (r: u64)
    requires
        lo <= hi <= b@.len(),
        hi - lo <= 8,
    ensures
        r == le_value(b@.subrange(lo as int, hi as int)),
{
    let mut v: u64 = 0;
    let mut k: usize = hi;
    assert(pow256(8) == 18446744073709551616nat) by {
        reveal_with_fuel(pow256, 9);
    }
    while k > lo
        invariant
            lo <= k <= hi <= b@.len(),
            hi - lo <= 8,
            v == le_value(b@.subrange(k as int, hi as int)),
            pow256(8) == 18446744073709551616nat,
        decreases k - lo,
    {
        let ghost tail = b@.subrange(k as int, hi as int);
        proof {
            lemma_le_value_bound(tail);
            lemma_pow256_monotone(tail.len(), 7);
            assert(b@.subrange(k - 1, hi as int).drop_first() =~= tail);
        }
        k = k - 1;
        proof {
            let p7 = pow256(7) as int;
            assert(pow256(8) == 256 * pow256(7));
            assert(256 * p7 == 18446744073709551616int);
            assert(v * 256 + 255 < 18446744073709551616int) by (nonlinear_arith)
                requires
                    v < p7,
                    256 * p7 == 18446744073709551616int,
            ;
        }
        v = v * 256 + b[k] as u64;
    }
    v
}

/// Powers of 256 grow with the exponent.
proof fn lemma_pow256_monotone(a: nat, b: nat)
    requires
        a <= b,
    ensures
        pow256(a) <= pow256(b),
    decreases b,
{
    if a < b {
        lemma_pow256_monotone(a, (b - 1) as nat);
    }
}

impl Ballot {
    /// The 20 bytes that stand for this ballot: `n` in 4 bytes, then `priority`
    /// and `pid` in 8 bytes each, every number least significant byte first.
    pub open spec fn encodes(self, b: Seq<u8>) -> bool {
        &&& b.len() == 20
        &&& le_value(b.subrange(0, 4)) == self.n
        &&& le_value(b.subrange(4, 12)) == self.priority
        &&& le_value(b.subrange(12, 20)) == self.pid
    }

    /// Reads a ballot from the 20 bytes that stand for it; `None` for any other
    /// length.
    pub fn from_bytes(b: &[u8]) -> (r: Option<Ballot>)
        ensures
            r is Some <==> b@.len() == 20,
            r matches Some(x) ==> x.encodes(b@),
    {
        if b.len() != 20 {
            return None;
        }
        let n = read_le(b, 0, 4);
        proof {
            lemma_le_value_bound(b@.subrange(0, 4));
            assert(pow256(4) == 4294967296nat) by {
                reveal_with_fuel(pow256, 5);
            }
        }
        let priority = read_le(b, 4, 12);
        let pid = read_le(b, 12, 20);
        Some(Ballot { n: n as u32, priority, pid })
    }
}

} // verus!
