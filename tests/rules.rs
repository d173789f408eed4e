use omnipaxos::ballot::Ballot;
use omnipaxos::election::{choose_promise, elect_leader};
use omnipaxos::quorum::{quorum_accepted_idx, LeaderState};

#[test]
fn quorum_index_is_the_majority_length() {
    assert_eq!(quorum_accepted_idx(&vec![10, 7, 3, 9, 1], 3), 7);
    assert_eq!(quorum_accepted_idx(&vec![10, 7, 3, 9, 1], 1), 10);
    assert_eq!(quorum_accepted_idx(&vec![10, 7, 3, 9, 1], 5), 1);
    assert_eq!(quorum_accepted_idx(&vec![4, 4, 4], 2), 4);
}

#[test]
fn quorum_index_without_quorum_is_zero() {
    assert_eq!(quorum_accepted_idx(&vec![], 1), 0);
    assert_eq!(quorum_accepted_idx(&vec![5, 6], 3), 0);
}

#[test]
fn leader_is_greatest_ballot_of_a_quorum() {
    let c = vec![Ballot::with(1, 0, 1), Ballot::with(2, 0, 3), Ballot::with(2, 0, 2)];
    assert_eq!(elect_leader(&c, 2), Some(Ballot::with(2, 0, 3)));
    assert_eq!(elect_leader(&c, 4), None);
    assert_eq!(elect_leader(&vec![], 0), None);
    let p = vec![Ballot::with(2, 0, 3), Ballot::with(2, 5, 1)];
    assert_eq!(elect_leader(&p, 1), Some(Ballot::with(2, 5, 1)));
}

#[test]
fn promise_with_highest_round_then_longest_log_wins() {
    let a = Ballot::with(1, 0, 1);
    let b = Ballot::with(2, 0, 2);
    assert_eq!(choose_promise(&vec![]), None);
    assert_eq!(choose_promise(&vec![(a, 9), (b, 3), (b, 5), (a, 20)]), Some(2));
    assert_eq!(choose_promise(&vec![(b, 5), (b, 5)]), Some(0));
    assert_eq!(choose_promise(&vec![(a, 1)]), Some(0));
}

#[test]
fn leader_decides_what_a_quorum_accepted() {
    let b = Ballot::with(3, 0, 1);
    let mut leader = LeaderState::new(b, 5, 3);
    assert_eq!(leader.decided_idx(), 0);
    leader.handle_accepted(b, 0, 8);
    leader.handle_accepted(b, 1, 5);
    assert_eq!(leader.decided_idx(), 0);
    leader.handle_accepted(b, 4, 6);
    assert_eq!(leader.decided_idx(), 5);
    leader.handle_accepted(b, 1, 2);
    assert_eq!(leader.decided_idx(), 5);
    leader.handle_accepted(Ballot::with(2, 0, 1), 2, 9);
    leader.handle_accepted(b, 7, 9);
    assert_eq!(leader.decided_idx(), 5);
    leader.handle_accepted(b, 2, 9);
    assert_eq!(leader.decided_idx(), 6);
    leader.handle_accepted(b, 4, 8);
    assert_eq!(leader.decided_idx(), 8);
}
