use vstd::prelude::*;
use crate::identity::Identity;

verus! {

broadcast use vstd::seq_lib::group_seq_properties;

/// The membership registry: the set of identities that may vote.
///
/// Membership is only ever granted, never withdrawn.
pub struct VoterRegistry {
    voters: Vec<Identity>,
}

impl View for VoterRegistry {
    type V = Set<Identity>;

    closed spec fn view(&self) -> Set<Identity> {
        self.voters@.to_set()
    }
}

impl VoterRegistry {
    /// A registry with no members.
    pub fn new() -> (r: VoterRegistry)
        ensures
            r@ == Set::<Identity>::empty(),
    {
        let r = VoterRegistry { voters: Vec::new() };
        assert(r@ =~= Set::<Identity>::empty());
        r
    }

    /// Makes `voter` a member. Anyone may register any identity; registering
    /// a member again changes nothing.
    pub fn register_voter(&mut self, voter: Identity)
        ensures
            final(self)@ == old(self)@.insert(voter),
    {
        if !self.is_voter(voter) {
            self.voters.push(voter);
        } else {
            assert(old(self)@.insert(voter) =~= old(self)@);
        }
    }

    /// Whether `voter` has been registered.
    pub fn is_voter(&self, voter: Identity) -> (r: bool)
        ensures
            r == self@.contains(voter),
    {
        let mut i: usize = 0;
        while i < self.voters.len()
            invariant
                0 <= i <= self.voters@.len(),
                forall|j: int| 0 <= j < i ==> self.voters@[j] != voter,
            decreases self.voters@.len() - i,
        {
            if self.voters[i].same_as(&voter) {
                assert(self.voters@.contains(voter));
                return true;
            }
            i = i + 1;
        }
        false
    }
}

impl Default for VoterRegistry {
    fn default() -> (r: VoterRegistry)
        ensures
            r@ == Set::<Identity>::empty(),
    {
        VoterRegistry::new()
    }
}

} // verus!
