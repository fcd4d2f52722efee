use voting::identity::Identity;
use voting::registry::VoterRegistry;
use voting::voting::{VoteError, Voting};

fn id(b: u8) -> Identity {
    Identity::new([b; 32])
}

#[test]
fn register_and_check_voter() {
    let mut contract = VoterRegistry::new();
    let voter = id(1);
    contract.register_voter(voter);
    assert!(contract.is_voter(voter));
}

#[test]
fn get_votes_initially_zero() {
    let voter_registry = id(2);
    let contract = Voting::new(voter_registry);
    assert_eq!(contract.get_votes(1), 0);
}

#[test]
fn unregistered_is_not_member() {
    let mut reg = VoterRegistry::default();
    assert!(!reg.is_voter(id(1)));
    reg.register_voter(id(2));
    assert!(!reg.is_voter(id(1)));
    assert!(reg.is_voter(id(2)));
}

#[test]
fn membership_is_permanent() {
    let mut reg = VoterRegistry::new();
    reg.register_voter(id(1));
    reg.register_voter(id(2));
    reg.register_voter(id(3));
    assert!(reg.is_voter(id(1)));
    assert!(reg.is_voter(id(2)));
    assert!(reg.is_voter(id(3)));
}

#[test]
fn register_twice_is_idempotent() {
    let mut reg = VoterRegistry::new();
    reg.register_voter(id(7));
    reg.register_voter(id(7));
    assert!(reg.is_voter(id(7)));
    assert!(!reg.is_voter(id(8)));
}

#[test]
fn identities_differ_in_one_byte() {
    let mut a = [5u8; 32];
    let b = a;
    a[31] = 6;
    let x = Identity::new(a);
    let y = Identity::new(b);
    assert!(!x.same_as(&y));
    assert!(x != y);
    assert!(x.same_as(&Identity::new(a)));
    assert_eq!(x.as_bytes(), a);
    let mut reg = VoterRegistry::new();
    reg.register_voter(x);
    assert!(!reg.is_voter(y));
}

#[test]
fn unregistered_vote_is_unauthorized() {
    let reg = VoterRegistry::new();
    let mut ballot = Voting::new(id(9));
    assert_eq!(
        ballot.vote_with_registry(&reg, id(1), 4),
        Err(VoteError::Unauthorized)
    );
    assert_eq!(ballot.get_votes(4), 0);
    assert!(!ballot.has_voted(id(1), 4));
}

#[test]
fn registered_first_vote_counts() {
    let mut reg = VoterRegistry::new();
    reg.register_voter(id(1));
    reg.register_voter(id(2));
    let mut ballot = Voting::new(id(9));
    assert_eq!(ballot.vote_with_registry(&reg, id(1), 5), Ok(()));
    assert_eq!(ballot.get_votes(5), 1);
    assert_eq!(ballot.vote_with_registry(&reg, id(2), 5), Ok(()));
    assert_eq!(ballot.get_votes(5), 2);
    assert!(ballot.has_voted(id(1), 5));
    assert!(ballot.has_voted(id(2), 5));
}

#[test]
fn repeated_vote_is_duplicate() {
    let mut ballot = Voting::new(id(9));
    assert_eq!(ballot.vote(id(1), Some(true), 3), Ok(()));
    assert_eq!(ballot.vote(id(1), Some(true), 3), Err(VoteError::DuplicateVote));
    assert_eq!(ballot.get_votes(3), 1);
}

#[test]
fn failed_registry_query_is_dependency_failure() {
    let mut ballot = Voting::new(id(9));
    assert_eq!(ballot.vote(id(1), None, 3), Err(VoteError::DependencyFailure));
    assert_eq!(ballot.get_votes(3), 0);
    assert!(!ballot.has_voted(id(1), 3));
    assert_eq!(ballot.vote(id(1), Some(false), 3), Err(VoteError::Unauthorized));
    assert_eq!(ballot.get_votes(3), 0);
}

#[test]
fn tallies_are_independent() {
    let mut ballot = Voting::new(id(9));
    assert_eq!(ballot.vote(id(1), Some(true), 10), Ok(()));
    assert_eq!(ballot.vote(id(2), Some(true), 10), Ok(()));
    assert_eq!(ballot.vote(id(1), Some(true), 11), Ok(()));
    assert_eq!(ballot.get_votes(10), 2);
    assert_eq!(ballot.get_votes(11), 1);
    assert_eq!(ballot.get_votes(12), 0);
}

#[test]
fn unvoted_proposals_read_zero() {
    let mut ballot = Voting::new(id(9));
    assert_eq!(ballot.get_votes(0), 0);
    assert_eq!(ballot.get_votes(u32::MAX), 0);
    assert_eq!(ballot.vote(id(1), Some(true), u32::MAX), Ok(()));
    assert_eq!(ballot.get_votes(u32::MAX), 1);
    assert_eq!(ballot.get_votes(0), 0);
}

#[test]
fn registry_binding_is_kept() {
    let mut ballot = Voting::new(id(42));
    assert_eq!(ballot.voter_registry(), id(42));
    assert_eq!(ballot.vote(id(1), Some(true), 1), Ok(()));
    assert_eq!(ballot.voter_registry(), id(42));
}

#[test]
fn two_voters_one_proposal_scenario() {
    let mut reg = VoterRegistry::new();
    let v1 = id(1);
    let v2 = id(2);
    reg.register_voter(v1);
    let mut ballot = Voting::new(id(100));
    assert_eq!(ballot.vote_with_registry(&reg, v1, 1), Ok(()));
    assert_eq!(ballot.get_votes(1), 1);
    assert_eq!(ballot.vote_with_registry(&reg, v1, 1), Err(VoteError::DuplicateVote));
    assert_eq!(ballot.get_votes(1), 1);
    assert_eq!(ballot.vote_with_registry(&reg, v1, 2), Ok(()));
    assert_eq!(ballot.get_votes(2), 1);
    assert_eq!(ballot.get_votes(1), 1);
    assert_eq!(ballot.vote_with_registry(&reg, v2, 1), Err(VoteError::Unauthorized));
    assert_eq!(ballot.get_votes(1), 1);
}
