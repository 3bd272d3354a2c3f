use chainbridge::votes::{ProposalStatus, ProposalVotes};

#[test]
fn complete_proposal_approved() {
    let mut prop = ProposalVotes {
        votes_for: vec![1, 2],
        votes_against: vec![3],
        status: ProposalStatus::Initiated,
        expiry: 1,
    };
    assert_eq!(prop.try_to_complete(2, 3), ProposalStatus::Approved);
    assert_eq!(prop.status, ProposalStatus::Approved);
    assert!(prop.is_complete());
}

#[test]
fn complete_proposal_rejected() {
    let mut prop = ProposalVotes {
        votes_for: vec![1],
        votes_against: vec![2, 3],
        status: ProposalStatus::Initiated,
        expiry: 1,
    };
    assert_eq!(prop.try_to_complete(2, 3), ProposalStatus::Rejected);
    assert_eq!(prop.status, ProposalStatus::Rejected);
    assert!(prop.is_complete());
}

#[test]
fn complete_proposal_bad_threshold() {
    let mut prop = ProposalVotes {
        votes_for: vec![1, 2],
        votes_against: vec![],
        status: ProposalStatus::Initiated,
        expiry: 1,
    };
    assert_eq!(prop.try_to_complete(3, 2), ProposalStatus::Initiated);
    assert_eq!(prop.status, ProposalStatus::Initiated);

    let mut prop = ProposalVotes {
        votes_for: vec![],
        votes_against: vec![1, 2],
        status: ProposalStatus::Initiated,
        expiry: 1,
    };
    assert_eq!(prop.try_to_complete(3, 2), ProposalStatus::Initiated);
    assert_eq!(prop.status, ProposalStatus::Initiated);
    assert!(!prop.is_complete());
}

#[test]
fn proposal_still_open_when_rest_can_reach_threshold() {
    // 4 relayers, threshold 2: one vote against still leaves 3 that can vote for.
    let mut prop = ProposalVotes {
        votes_for: vec![1],
        votes_against: vec![2],
        status: ProposalStatus::Initiated,
        expiry: 10,
    };
    assert_eq!(prop.try_to_complete(2, 4), ProposalStatus::Initiated);
    assert_eq!(prop.status, ProposalStatus::Initiated);
}

#[test]
fn voted_and_expired() {
    let prop = ProposalVotes {
        votes_for: vec![1],
        votes_against: vec![2],
        status: ProposalStatus::Initiated,
        expiry: 10,
    };
    assert!(prop.has_voted(&1));
    assert!(prop.has_voted(&2));
    assert!(!prop.has_voted(&3));
    assert!(!prop.is_expired(9));
    assert!(prop.is_expired(10));
    assert!(prop.is_expired(11));
}

#[test]
fn default_votes_are_empty() {
    let prop = ProposalVotes::default();
    assert!(prop.votes_for.is_empty());
    assert!(prop.votes_against.is_empty());
    assert_eq!(prop.status, ProposalStatus::Initiated);
    assert_eq!(prop.expiry, 0);
}

#[test]
fn duplicate_copies_everything() {
    let prop = ProposalVotes {
        votes_for: vec![4, 5],
        votes_against: vec![6],
        status: ProposalStatus::Approved,
        expiry: 3,
    };
    assert_eq!(prop.duplicate(), prop);
}
