use vstd::prelude::*;
use crate::identity::Identity;
use crate::voting::{VoteError, VotingView, vote_outcome, after_vote, lemma_tally_insert, on_proposal};

verus! {

broadcast use vstd::set::group_set_axioms;

/// No identity is a member of a new registry; after `register_voter(i)`,
/// `i` is a member, and it stays one through any later registration.
pub proof fn law_register_grants_membership(members: Set<Identity>, i: Identity, j: Identity)
    ensures
        !Set::<Identity>::empty().contains(i),
        members.insert(i).contains(i),
        members.insert(i).insert(j).contains(i),
{
}

/// Registering an identity twice leaves the registry as registering it once.
pub proof fn law_register_idempotent(members: Set<Identity>, i: Identity)
    ensures
        members.insert(i).insert(i) == members.insert(i),
{
    assert(members.insert(i).insert(i) =~= members.insert(i));
}

/// A caller that the registry does not hold is refused as unauthorized, and
/// every tally stays as it was.
pub proof fn law_unregistered_refused(
    v: VotingView,
    members: Set<Identity>,
    caller: Identity,
    p: u32,
    q: u32,
)
    requires
        !members.contains(caller),
    ensures
        vote_outcome(v, caller, Some(members.contains(caller)), p) == Err::<(), VoteError>(
            VoteError::Unauthorized,
        ),
        after_vote(v, caller, Some(members.contains(caller)), p) == v,
        after_vote(v, caller, Some(members.contains(caller)), p).tally(q) == v.tally(q),
{
}

/// A member that has not voted on `p` votes successfully, and the tally of
/// `p` rises by exactly one (below the largest count a `u32` holds).
pub proof fn law_first_vote_counts(v: VotingView, members: Set<Identity>, caller: Identity, p: u32)
    requires
        v.valid(),
        members.contains(caller),
        !v.voted.contains((caller, p)),
        v.tally(p) < u32::MAX,
    ensures
        vote_outcome(v, caller, Some(members.contains(caller)), p) is Ok,
        after_vote(v, caller, Some(members.contains(caller)), p).tally(p) == v.tally(p) + 1,
{
    lemma_tally_insert(v.voted, (caller, p), p);
}

/// Right after a successful vote, the same member voting again on the same
/// proposal is refused as a duplicate, and the tally does not move.
pub proof fn law_repeat_vote_refused(v: VotingView, caller: Identity, p: u32)
    requires
        v.valid(),
        vote_outcome(v, caller, Some(true), p) is Ok,
    ensures
        vote_outcome(after_vote(v, caller, Some(true), p), caller, Some(true), p) == Err::<
            (),
            VoteError,
        >(VoteError::DuplicateVote),
        after_vote(after_vote(v, caller, Some(true), p), caller, Some(true), p).tally(p)
            == after_vote(v, caller, Some(true), p).tally(p),
{
}

/// A vote on `p1`, whatever its outcome, leaves the tally of every other
/// proposal unchanged.
pub proof fn law_tallies_independent(
    v: VotingView,
    caller: Identity,
    membership: Option<bool>,
    p1: u32,
    p2: u32,
)
    requires
        v.valid(),
        p1 != p2,
    ensures
        after_vote(v, caller, membership, p1).tally(p2) == v.tally(p2),
{
    if vote_outcome(v, caller, membership, p1) is Ok {
        lemma_tally_insert(v.voted, (caller, p1), p2);
    }
}

/// A proposal on which no vote was ever recorded has tally 0; in particular
/// every proposal of a new ballot does.
pub proof fn law_unvoted_tally_zero(v: VotingView, registry: Identity, p: u32)
    ensures
        (forall|x: Identity| !v.voted.contains((x, p))) ==> v.tally(p) == 0,
        (VotingView { voter_registry: registry, voted: Set::empty() }).tally(p) == 0,
{
    if forall|x: Identity| !v.voted.contains((x, p)) {
        assert forall|e: (Identity, u32)| !v.voted.filter(on_proposal(p)).contains(e) by {
            assert(!v.voted.contains((e.0, p)));
        }
        assert(v.voted.filter(on_proposal(p)) =~= Set::empty());
    }
    assert((VotingView { voter_registry: registry, voted: Set::empty() }).voted.filter(
        on_proposal(p),
    ) =~= Set::empty());
}

} // verus!
