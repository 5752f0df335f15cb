//! The set of voters.

use vstd::prelude::*;

verus! {

/// The voters, in the order in which they take turns to propose, and the
/// number of votes that makes a quorum among them.
#[derive(Debug)]
pub struct VoterSet<I> {
    voters: Vec<I>,
    threshold: usize,
}

/// What a [`VoterSet`] holds.
#[verifier::ext_equal]
pub struct VoterSetView<I> {
    pub voters: Seq<I>,
    pub threshold: nat,
}

impl<I> VoterSetView<I> {
    /// The voter whose turn it is to propose in `round`.
    pub open spec fn proposer(self, round: u64) -> I {
        self.voters[round as int % self.voters.len() as int]
    }
}

impl<I> View for VoterSet<I> {
    type V = VoterSetView<I>;

    closed spec fn view(&self) -> VoterSetView<I> {
        VoterSetView { voters: self.voters@, threshold: self.threshold as nat }
    }
}

impl<I> VoterSet<I> {
    #[verifier::type_invariant]
    spec fn inhabited(self) -> bool {
        self.voters@.len() > 0
    }

    /// The set of `voters` in which `threshold` votes are a quorum, or `None`
    /// if there are no voters.
    pub fn new(voters: Vec<I>, threshold: usize) -> (r: Option<Self>)
        ensures
            r is None <==> voters@.len() == 0,
            r matches Some(set) ==> set@ == (VoterSetView {
                voters: voters@,
                threshold: threshold as nat,
            }),
    {
        if voters.len() == 0 {
            None
        } else {
            Some(VoterSet { voters, threshold })
        }
    }

    /// The number of votes that makes a quorum.
    pub fn threshold(&self) -> (r: usize)
        ensures
            r == self@.threshold,
    {
        self.threshold
    }
}

impl<I: Clone> VoterSet<I> {
    /// The voter whose turn it is to propose in `round`.
    pub fn get_proposer(&self, round: u64) -> (r: I)
        ensures
            cloned(self@.proposer(round), r),
    {
        proof {
            use_type_invariant(self);
        }
        let turn: u64 = round % (self.voters.len() as u64);
        self.voters[turn as usize].clone()
    }
}

} // verus!
