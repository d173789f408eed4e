use omnipaxos::ballot::Ballot;
use omnipaxos::leader_election::BallotLeaderElection;

#[test]
fn greatest_ballot_of_a_quorum_leads() {
    let mut ble = BallotLeaderElection::new(Ballot::with(1, 0, 3), 3);
    assert_eq!(ble.round(), 0);
    ble.handle_reply(0, Ballot::with(1, 0, 1));
    ble.handle_reply(0, Ballot::with(1, 0, 4));
    assert_eq!(ble.tick(), (1, Some(Ballot::with(1, 0, 4))));
    assert_eq!(ble.leader(), Some(Ballot::with(1, 0, 4)));
    ble.handle_reply(1, Ballot::with(1, 0, 1));
    ble.handle_reply(1, Ballot::with(1, 0, 4));
    assert_eq!(ble.tick(), (2, None));
}

#[test]
fn no_quorum_keeps_the_leader() {
    let mut ble = BallotLeaderElection::new(Ballot::with(1, 0, 3), 3);
    ble.handle_reply(0, Ballot::with(1, 0, 5));
    assert_eq!(ble.tick(), (1, None));
    assert_eq!(ble.leader(), None);
    ble.handle_reply(0, Ballot::with(1, 0, 5));
    ble.handle_reply(1, Ballot::with(1, 0, 2));
    assert_eq!(ble.tick(), (2, None));
}

#[test]
fn lost_leader_is_replaced_in_a_fresh_round() {
    let mut ble = BallotLeaderElection::new(Ballot::with(1, 0, 3), 3);
    ble.handle_reply(0, Ballot::with(1, 0, 1));
    ble.handle_reply(0, Ballot::with(1, 0, 4));
    ble.tick();
    ble.handle_reply(1, Ballot::with(1, 0, 1));
    ble.handle_reply(1, Ballot::with(1, 0, 2));
    assert_eq!(ble.tick(), (2, Some(Ballot::with(2, 0, 3))));
    assert_eq!(ble.ballot(), Ballot::with(2, 0, 3));
    assert_eq!(ble.leader(), Some(Ballot::with(2, 0, 3)));
}

#[test]
fn priority_breaks_ties() {
    let mut ble = BallotLeaderElection::new(Ballot::with(1, 0, 9), 2);
    ble.handle_reply(0, Ballot::with(1, 5, 1));
    assert_eq!(ble.tick(), (1, Some(Ballot::with(1, 5, 1))));
}
