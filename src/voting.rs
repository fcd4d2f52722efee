use vstd::prelude::*;
use crate::identity::Identity;
use crate::registry::VoterRegistry;

verus! {

broadcast use {vstd::seq_lib::group_seq_properties, vstd::set::group_set_axioms};

/// Why a vote was refused. A refused vote changes nothing.
#[derive(Clone, Copy, Debug, PartialEq, Eq, Structural)]
pub enum VoteError {
    /// The caller is not a member of the bound registry.
    Unauthorized,
    /// The caller has already voted on this proposal.
    DuplicateVote,
    /// The proposal's count is at the largest value a `u32` holds.
    Overflow,
    /// The membership query to the registry did not complete.
    DependencyFailure,
}

/// The abstract state of the ballot module: the registry it is bound to and
/// the (identity, proposal) pairs that have voted.
pub struct VotingView {
    pub voter_registry: Identity,
    pub voted: Set<(Identity, u32)>,
}

/// Selects the vote records that concern proposal `p`.
pub open spec fn on_proposal(p: u32) -> spec_fn((Identity, u32)) -> bool {
    |e: (Identity, u32)| e.1 == p
}

impl VotingView {
    /// The tally of proposal `p`: the number of distinct identities that voted on it.
    pub open spec fn tally(self, p: u32) -> nat {
        self.voted.filter(on_proposal(p)).len()
    }

    /// Every reachable state has finitely many vote records and tallies that fit a `u32`.
    pub open spec fn valid(self) -> bool {
        &&& self.voted.finite()
        &&& forall|p: u32| #[trigger] self.tally(p) <= u32::MAX
    }
}

/// What a vote by `caller` on proposal `p` returns, given the registry's answer
/// `membership` (`None` when the query to the registry did not complete).
pub open spec fn vote_outcome(
    v: VotingView,
    caller: Identity,
    membership: Option<bool>,
    p: u32,
) -> Result<(), VoteError> {
    match membership {
        None => Err(VoteError::DependencyFailure),
        Some(false) => Err(VoteError::Unauthorized),
        Some(true) => if v.voted.contains((caller, p)) {
            Err(VoteError::DuplicateVote)
        } else if v.tally(p) >= u32::MAX {
            Err(VoteError::Overflow)
        } else {
            Ok(())
        },
    }
}

/// The state after that vote: the pair is recorded on success, and nothing
/// changes on failure.
pub open spec fn after_vote(
    v: VotingView,
    caller: Identity,
    membership: Option<bool>,
    p: u32,
) -> VotingView {
    if vote_outcome(v, caller, membership, p) is Ok {
        VotingView { voter_registry: v.voter_registry, voted: v.voted.insert((caller, p)) }
    } else {
        v
    }
}

/// Adding a record that is not yet there raises the tally of its own
/// proposal by one and leaves every other tally as it was.
pub proof fn lemma_tally_insert(s: Set<(Identity, u32)>, x: (Identity, u32), q: u32)
    requires
        s.finite(),
        !s.contains(x),
    ensures
        s.insert(x).filter(on_proposal(q)).len() == s.filter(on_proposal(q)).len()
            + (if x.1 == q { 1int } else { 0int }),
{
    s.lemma_len_filter(on_proposal(q));
    if x.1 == q {
        assert(s.insert(x).filter(on_proposal(q)) =~= s.filter(on_proposal(q)).insert(x));
    } else {
        assert(s.insert(x).filter(on_proposal(q)) =~= s.filter(on_proposal(q)));
    }
}

/// The ballot module: per-proposal vote counts and the record of who voted
/// on what, bound for good to one membership registry.
pub struct Voting {
    /// (proposal id, count), at most one entry per proposal.
    votes: Vec<(u32, u32)>,
    voter_registry: Identity,
    /// (voter, proposal id) pairs that have voted.
    voted: Vec<(Identity, u32)>,
}

impl View for Voting {
    type V = VotingView;

    closed spec fn view(&self) -> VotingView {
        VotingView { voter_registry: self.voter_registry, voted: self.voted@.to_set() }
    }
}

impl Voting {
    /// The stored counts agree with the vote records: each entry holds its
    /// proposal's tally, and a proposal without an entry has none.
    pub closed spec fn wf(&self) -> bool {
        &&& forall|i: int, j: int|
            0 <= i < j < self.votes@.len() ==> self.votes@[i].0 != self.votes@[j].0
        &&& forall|i: int|
            0 <= i < self.votes@.len() ==> self@.tally(#[trigger] self.votes@[i].0)
                == self.votes@[i].1
        &&& forall|p: u32|
            (forall|i: int| 0 <= i < self.votes@.len() ==> self.votes@[i].0 != p) ==> #[trigger] self@.tally(p) == 0
    }

    proof fn lemma_valid(&self)
        requires
            self.wf(),
        ensures
            self@.valid(),
    {
        assert(self@.voted.finite());
        assert forall|p: u32| #[trigger] self@.tally(p) <= u32::MAX by {
            if exists|i: int| 0 <= i < self.votes@.len() && self.votes@[i].0 == p {
                let i = choose|i: int| 0 <= i < self.votes@.len() && self.votes@[i].0 == p;
                assert(self@.tally(self.votes@[i].0) == self.votes@[i].1);
            }
        }
    }

    /// A ballot with no votes, bound to the registry at `voter_registry`.
    pub fn new(voter_registry: Identity) -> (r: Voting)
        ensures
            r.wf(),
            r@.valid(),
            r@ == (VotingView { voter_registry, voted: Set::empty() }),
    {
        let r = Voting { votes: Vec::new(), voter_registry, voted: Vec::new() };
        assert(r@.voted =~= Set::empty());
        assert forall|p: u32| #[trigger] r@.tally(p) == 0 by {
            assert(r@.voted.filter(on_proposal(p)) =~= Set::empty());
        }
        proof {
            r.lemma_valid();
        }
        r
    }

    /// The registry this ballot is bound to.
    pub fn voter_registry(&self) -> (r: Identity)
        ensures
            r == self@.voter_registry,
    {
        self.voter_registry
    }

    /// Where proposal `p` stands in the stored counts, if anywhere.
    fn find_count(&self, p: u32) -> (r: Option<usize>)
        ensures
            match r {
                Some(i) => i < self.votes@.len() && self.votes@[i as int].0 == p,
                None => forall|i: int| 0 <= i < self.votes@.len() ==> self.votes@[i].0 != p,
            },
    {
        let mut i: usize = 0;
        while i < self.votes.len()
            invariant
                0 <= i <= self.votes@.len(),
                forall|j: int| 0 <= j < i ==> self.votes@[j].0 != p,
            decreases self.votes@.len() - i,
        {
            if self.votes[i].0 == p {
                return Some(i);
            }
            i = i + 1;
        }
        None
    }

    /// Whether `voter` has voted on proposal `p`.
    pub fn has_voted(&self, voter: Identity, p: u32) -> (r: bool)
        ensures
            r == self@.voted.contains((voter, p)),
    {
        let mut i: usize = 0;
        while i < self.voted.len()
            invariant
                0 <= i <= self.voted@.len(),
                forall|j: int| 0 <= j < i ==> self.voted@[j] != (voter, p),
            decreases self.voted@.len() - i,
        {
            let e = &self.voted[i];
            if e.1 == p && e.0.same_as(&voter) {
                assert(self.voted@.contains((voter, p)));
                return true;
            }
            i = i + 1;
        }
        false
    }

    /// The number of votes cast on proposal `p`; 0 for a proposal no one voted on.
    pub fn get_votes(&self, p: u32) -> (r: u32)
        requires
            self.wf(),
        ensures
            r == self@.tally(p),
    {
        match self.find_count(p) {
            Some(i) => self.votes[i].1,
            None => 0,
        }
    }
    /// Casts `caller`'s vote on proposal `p`. `membership` is the bound
    /// registry's answer for `caller`, or `None` when that query did not
    /// complete. The count and the vote record change together, and only on
    /// success.
    pub fn vote(
        &mut self,
        caller: Identity,
        membership: Option<bool>,
        p: u32,
    ) -> (r: Result<(), VoteError>)
        requires
            old(self).wf(),
        ensures
            final(self).wf(),
            final(self)@.valid(),
            r == vote_outcome(old(self)@, caller, membership, p),
            final(self)@ == after_vote(old(self)@, caller, membership, p),
    {
        proof {
            self.lemma_valid();
        }
        let is_voter = match membership {
            None => {
                return Err(VoteError::DependencyFailure);
            },
            Some(b) => b,
        };
        if !is_voter {
            return Err(VoteError::Unauthorized);
        }
        if self.has_voted(caller, p) {
            return Err(VoteError::DuplicateVote);
        }
        let found = self.find_count(p);
        let current: u32 = match found {
            Some(i) => self.votes[i].1,
            None => 0,
        };
        let new_votes: u32 = match current.checked_add(1) {
            Some(n) => n,
            None => {
                return Err(VoteError::Overflow);
            },
        };
        let ghost before = self@;
        let ghost old_votes = self.votes@;
        match found {
            Some(i) => {
                self.votes.set(i, (p, new_votes));
            },
            None => {
                self.votes.push((p, new_votes));
            },
        }
        self.voted.push((caller, p));
        proof {
            assert(self@.voted =~= before.voted.insert((caller, p)));
            assert forall|q: u32|
                #[trigger] self@.tally(q) == before.tally(q) + (if q == p {
                    1int
                } else {
                    0int
                }) by {
                lemma_tally_insert(before.voted, (caller, p), q);
            }
            assert forall|q: u32|
                (forall|i: int| 0 <= i < self.votes@.len() ==> self.votes@[i].0 != q)
                    implies #[trigger] self@.tally(q) == 0 by {
                if found is Some {
                    assert(self.votes@[found->0 as int].0 == p);
                } else {
                    assert(self.votes@[old_votes.len() as int].0 == p);
                }
                assert(self@.tally(q) == before.tally(q));
                assert forall|i: int| 0 <= i < old_votes.len() implies old_votes[i].0 != q by {
                    assert(self.votes@[i].0 == old_votes[i].0 || self.votes@[i].0 == p);
                }
            }
            self.lemma_valid();
        }
        Ok(())
    }

    /// Casts `caller`'s vote on proposal `p`, asking `registry` whether
    /// `caller` is a member before anything else is read.
    pub fn vote_with_registry(
        &mut self,
        registry: &VoterRegistry,
        caller: Identity,
        p: u32,
    ) -> (r: Result<(), VoteError>)
        requires
            old(self).wf(),
        ensures
            final(self).wf(),
            final(self)@.valid(),
            r == vote_outcome(old(self)@, caller, Some(registry@.contains(caller)), p),
            final(self)@ == after_vote(old(self)@, caller, Some(registry@.contains(caller)), p),
    {
        let is_voter = registry.is_voter(caller);
        self.vote(caller, Some(is_voter), p)
    }
}

} // verus!
