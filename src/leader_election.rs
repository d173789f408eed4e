use vstd::prelude::*;
use crate::ballot::Ballot;
use crate::election::elect_leader;

verus! {

/// `b` is the greatest ballot of `s`.
pub open spec fn is_greatest(b: Ballot, s: Seq<Ballot>) -> bool {
    s.contains(b) && forall|i: int| 0 <= i < s.len() ==> #[trigger] s[i].le_spec(b)
}

/// The ballot that a node holding `own` publishes when `best` is the greatest
/// ballot heard and `previous` the leader it last published: its own ballot in a
/// fresh round when it wins over a previous leader that did not answer, else
/// `best`.
pub open spec fn published(own: Ballot, best: Ballot, previous: Option<Ballot>, heard: Seq<Ballot>) -> Ballot {
    if best == own && own.n < u32::MAX && (previous matches Some(p) && p != own && !heard.contains(p)) {
        Ballot { n: (own.n + 1) as u32, ..own }
    } else {
        best
    }
}

/// Heartbeat-based leader election of one node. Each round the node asks its
/// peers for their ballots; at the end of the round, if a quorum answered, the
/// greatest ballot heard (its own included) leads.
pub struct BallotLeaderElection {
    ballot: Ballot,
    hb_round: u64,
    replies: Vec<Ballot>,
    leader: Option<Ballot>,
    quorum: usize,
}

impl BallotLeaderElection {
    pub closed spec fn own_spec(&self) -> Ballot {
        self.ballot
    }

    pub closed spec fn round_spec(&self) -> u64 {
        self.hb_round
    }

    pub closed spec fn replies_spec(&self) -> Seq<Ballot> {
        self.replies@
    }

    pub closed spec fn leader_spec(&self) -> Option<Ballot> {
        self.leader
    }

    pub closed spec fn quorum_spec(&self) -> usize {
        self.quorum
    }

    /// A node with ballot `ballot` in a configuration whose quorum is `quorum`.
    pub fn new(ballot: Ballot, quorum: usize) -> (r: Self)
        ensures
            r.own_spec() == ballot,
            r.round_spec() == 0,
            r.replies_spec().len() == 0,
            r.leader_spec() is None,
            r.quorum_spec() == quorum,
    {
        BallotLeaderElection { ballot, hb_round: 0, replies: Vec::new(), leader: None, quorum }
    }

    /// The round whose replies are being collected.
    pub fn round(&self) -> (r: u64)
        ensures
            r == self.round_spec(),
    {
        self.hb_round
    }

    /// The leader last published.
    pub fn leader(&self) -> (r: Option<Ballot>)
        ensures
            r == self.leader_spec(),
    {
        self.leader
    }

    /// This node's own ballot.
    pub fn ballot(&self) -> (r: Ballot)
        ensures
            r == self.own_spec(),
    {
        self.ballot
    }

    /// Records a peer's reply; a reply to an earlier round is dropped.
    pub fn handle_reply(&mut self, round: u64, ballot: Ballot)
        ensures
            final(self).own_spec() == old(self).own_spec(),
            final(self).round_spec() == old(self).round_spec(),
            final(self).leader_spec() == old(self).leader_spec(),
            final(self).quorum_spec() == old(self).quorum_spec(),
            final(self).replies_spec() == if round == old(self).round_spec() {
                old(self).replies_spec().push(ballot)
            } else {
                old(self).replies_spec()
            },
    {
        if round == self.hb_round {
            self.replies.push(ballot);
        }
    }

    /// Ends the current round: elects from the replies and this node's own
    /// ballot, then opens the next round. Returns the next round, to be sent to
    /// the peers, and the new leader if it changed, to be published.
    pub fn tick(&mut self) -> (r: (u64, Option<Ballot>))
        requires
            old(self).round_spec() < u64::MAX,
        ensures
            ({
                let heard = old(self).replies_spec().push(old(self).own_spec());
                let prev = old(self).leader_spec();
                &&& r.0 == old(self).round_spec() + 1
                &&& final(self).round_spec() == r.0
                &&& final(self).replies_spec().len() == 0
                &&& final(self).quorum_spec() == old(self).quorum_spec()
                &&& heard.len() < old(self).quorum_spec() ==> final(self).leader_spec() == prev
                    && final(self).own_spec() == old(self).own_spec()
                &&& heard.len() >= old(self).quorum_spec() ==> exists|best: Ballot|
                    is_greatest(best, heard) && final(self).leader_spec() == Some(
                        published(old(self).own_spec(), best, prev, heard),
                    ) && final(self).own_spec() == if published(
                        old(self).own_spec(),
                        best,
                        prev,
                        heard,
                    ) != best {
                        published(old(self).own_spec(), best, prev, heard)
                    } else {
                        old(self).own_spec()
                    }
                &&& r.1 == if final(self).leader_spec() == prev {
                    None
                } else {
                    final(self).leader_spec()
                }
            }),
    {
        let mut heard = Vec::new();
        std::mem::swap(&mut heard, &mut self.replies);
        heard.push(self.ballot);
        assert(heard@ == old(self).replies_spec().push(old(self).own_spec()));
        let old_leader = self.leader;
        if let Some(best) = elect_leader(&heard, self.quorum) {
            let mut lost = false;
            if let Some(p) = self.leader {
                if p != self.ballot {
                    lost = true;
                    let mut i: usize = 0;
                    while i < heard.len()
                        invariant
                            i <= heard@.len(),
                            lost <==> forall|j: int| 0 <= j < i ==> heard@[j] != p,
                        decreases heard@.len() - i,
                    {
                        if heard[i] == p {
                            lost = false;
                        }
                        i = i + 1;
                    }
                }
            }
            assert(is_greatest(best, heard@));
            assert(lost <==> (old_leader matches Some(p) && p != self.ballot && !heard@.contains(p)));
            let elected = if best == self.ballot && self.ballot.n < u32::MAX && lost {
                self.ballot = Ballot { n: self.ballot.n + 1, ..self.ballot };
                self.ballot
            } else {
                best
            };
            self.leader = Some(elected);
            assert(elected == published(old(self).own_spec(), best, old_leader, heard@));
        }
        self.hb_round = self.hb_round + 1;
        let changed = match (old_leader, self.leader) {
            (Some(a), Some(b)) => a != b,
            (None, None) => false,
            _ => true,
        };
        (self.hb_round, if changed { self.leader } else { None })
    }
}

} // verus!
