//! What a voter keeps from one round to the next.

use crate::messages::{lemma_prevotes_clone_exactly, Prevote, Proposal};
use crate::number::{has_successor, successor, BlockNumberOps};
use crate::value::{
    cloned_option, clones_exactly, compared, compares_exactly, copied, copied_option, copy_of,
    equals,
};
use crate::voters::{VoterSet, VoterSetView};
use std::collections::BTreeMap;
use vstd::prelude::*;

verus! {

/// The step of a round.
#[derive(Debug, Clone, Copy, PartialEq, Eq, Structural)]
pub enum CurrentState {
    Proposal,
    Prevote,
    Precommit,
}

impl CurrentState {
    /// The first step of a round.
    pub fn new() -> (r: Self)
        ensures
            r == CurrentState::Proposal,
    {
        CurrentState::Proposal
    }
}

/// What a voter keeps from one round to the next.
#[derive(Debug)]
pub struct GlobalState<N, H, I> {
    local_id: I,
    height: N,
    round: u64,
    decision: BTreeMap<N, H>,
    locked_value: Option<H>,
    locked_round: Option<u64>,
    valid_value: Option<H>,
    valid_round: Option<u64>,
    voters: VoterSet<I>,
    current_state: CurrentState,
    message_log: BTreeMap<u64, Vec<Prevote<N, H>>>,
}

/// What a [`GlobalState`] holds.
#[verifier::ext_equal]
#[verifier::reject_recursive_types(N)]
pub struct GlobalView<N, H, I> {
    /// The voter itself.
    pub local_id: I,
    /// The height of the last finalized block.
    pub height: N,
    pub round: u64,
    /// The block finalized at each height.
    pub decision: Map<N, H>,
    pub locked_value: Option<H>,
    pub locked_round: Option<u64>,
    pub valid_value: Option<H>,
    pub valid_round: Option<u64>,
    pub voters: VoterSetView<I>,
    pub current_state: CurrentState,
    /// The prevotes of the rounds that ended without a block.
    pub message_log: Map<u64, Seq<Prevote<N, H>>>,
}

impl<N, H, I> GlobalView<N, H, I> {
    /// The state after the prevotes of `round` were logged.
    pub open spec fn appended(self, round: u64, prevotes: Seq<Prevote<N, H>>) -> Self {
        GlobalView { message_log: self.message_log.insert(round, prevotes), ..self }
    }

    /// The prevotes logged for `round`, where there are more than a quorum
    /// takes.
    pub open spec fn logged(self, round: u64) -> Option<Seq<Prevote<N, H>>> {
        if self.message_log.contains_key(round) && self.message_log[round].len()
            > self.voters.threshold {
            Some(self.message_log[round])
        } else {
            None
        }
    }
}

impl<N, H, I> GlobalView<N, H, I> {
    /// The state after `target` was taken as the last finalized block.
    pub open spec fn retargeted(self, target: (N, H)) -> Self {
        GlobalView {
            height: target.0,
            decision: self.decision.insert(target.0, target.1),
            ..self
        }
    }

    /// The voter votes for a proposal that comes in `round`.
    ///
    /// A proposal that names the round in which its block had a quorum needs
    /// the log of that round, which has to be a past one. Any other proposal
    /// needs a voter that is not locked, or is locked on the block.
    pub open spec fn endorses(self, proposal: Proposal<N, H>, round: u64) -> bool {
        match proposal.valid_round {
            Some(valid_round) => valid_round < round && self.logged(valid_round) is Some,
            None => self.locked_round is None || self.locked_value == Some(proposal.target_hash),
        }
    }

    /// The voter votes for a proposal that comes in `round`, where `equal`
    /// tells whether its block is taken for the one that the voter is locked
    /// on.
    pub open spec fn endorses_as(self, proposal: Proposal<N, H>, round: u64, equal: bool) -> bool {
        match proposal.valid_round {
            Some(valid_round) => valid_round < round && self.logged(valid_round) is Some,
            None => self.locked_round is None || self.locked_value is Some && equal,
        }
    }

    /// The prevote on a proposal that comes in `round`.
    pub open spec fn prevote_on(self, proposal: Proposal<N, H>, round: u64) -> Prevote<N, H> {
        proposal.prevoted(self.endorses(proposal, round))
    }

    /// The prevote when no proposal came.
    pub open spec fn prevote_on_none(self) -> Prevote<N, H> {
        Prevote { target_hash: None, target_height: self.height, round: self.round }
    }

    /// The state after the prevote was sent.
    pub open spec fn prevote_sent(self) -> Self {
        GlobalView { current_state: CurrentState::Prevote, ..self }
    }

    /// The state after a quorum of prevotes came in that stands for `value`.
    ///
    /// A quorum for a block locks the voter on that block, makes it the block
    /// to propose again and takes the voter to the precommit. A quorum for no
    /// block locks the round on nothing.
    pub open spec fn locked_on(self, value: Option<H>) -> Self {
        match value {
            Some(hash) => GlobalView {
                locked_value: Some(hash),
                locked_round: Some(self.round),
                valid_value: Some(hash),
                valid_round: Some(self.round),
                current_state: CurrentState::Precommit,
                ..self
            },
            None => GlobalView { locked_value: None, locked_round: Some(self.round), ..self },
        }
    }

    /// The prevote on a proposal is found by comparing its hash: the proposal
    /// is a fresh one, and the voter is locked on a block.
    pub open spec fn compares_with_lock(self, proposal: Proposal<N, H>) -> bool {
        proposal.valid_round is None && self.locked_round is Some && self.locked_value is Some
    }
}

impl<N, H: PartialEq, I> GlobalView<N, H, I> {
    /// `equal` is what comparing the block of a proposal with the one that the
    /// voter is locked on may give, if they are compared.
    pub open spec fn lock_compared(self, proposal: Proposal<N, H>, equal: bool) -> bool {
        self.compares_with_lock(proposal) ==> compared(
            self.locked_value->0,
            proposal.target_hash,
            equal,
        )
    }
}

impl<N, H: Clone, I> GlobalView<N, H, I> {
    /// `other` is the same state with copies of the hashes.
    pub open spec fn copied_to(self, other: Self) -> bool {
        &&& other == GlobalView {
            decision: other.decision,
            locked_value: other.locked_value,
            valid_value: other.valid_value,
            ..self
        }
        &&& copied_option(self.locked_value, other.locked_value)
        &&& copied_option(self.valid_value, other.valid_value)
        &&& other.decision.dom() == self.decision.dom()
        &&& forall|n: N| #[trigger]
            self.decision.contains_key(n) ==> copied(self.decision[n], other.decision[n])
    }
}

impl<N: BlockNumberOps, H, I> GlobalView<N, H, I> {
    /// There is a next height for the block that the voter proposes again, or
    /// else a block on which a new one builds.
    pub open spec fn can_propose(self) -> bool {
        if self.valid_value is Some {
            has_successor(self.height)
        } else {
            self.decision.contains_key(self.height)
        }
    }

    /// The state after the block `hash` was finalized at `height`.
    pub open spec fn finalized(self, height: N, hash: H) -> Self {
        GlobalView {
            height: successor(self.height),
            decision: self.decision.insert(height, hash),
            locked_value: None,
            locked_round: None,
            valid_value: None,
            valid_round: None,
            ..self
        }
    }
}

impl<N, H, I> View for GlobalState<N, H, I> {
    type V = GlobalView<N, H, I>;

    closed spec fn view(&self) -> GlobalView<N, H, I> {
        GlobalView {
            local_id: self.local_id,
            height: self.height,
            round: self.round,
            decision: self.decision@,
            locked_value: self.locked_value,
            locked_round: self.locked_round,
            valid_value: self.valid_value,
            valid_round: self.valid_round,
            voters: self.voters@,
            current_state: self.current_state,
            message_log: self.message_log@.map_values(|v: Vec<Prevote<N, H>>| v@),
        }
    }
}

impl<N: BlockNumberOps, H: Clone, I> GlobalState<N, H, I> {
    /// The state of a voter that has finalized nothing and locked nothing.
    pub fn new(local_id: I, voters: VoterSet<I>) -> (r: Self)
        ensures
            r@ == (GlobalView {
                local_id,
                height: N::zero_spec(),
                round: 0,
                decision: Map::<N, H>::empty(),
                locked_value: None,
                locked_round: None,
                valid_value: None,
                valid_round: None,
                voters: voters@,
                current_state: CurrentState::Proposal,
                message_log: Map::<u64, Seq<Prevote<N, H>>>::empty(),
            }),
    {
        GlobalState {
            local_id,
            height: N::zero(),
            round: u64::zero(),
            decision: BTreeMap::new(),
            locked_value: None,
            locked_round: None,
            valid_value: None,
            valid_round: None,
            voters,
            current_state: CurrentState::Proposal,
            message_log: BTreeMap::new(),
        }
    }

    /// Logs the prevotes of a round that ended without a block, in place of
    /// what was logged for it before.
    pub fn append_round(&mut self, round: u64, prevotes: Vec<Prevote<N, H>>)
        ensures
            final(self)@ == old(self)@.appended(round, prevotes@),
    {
        self.message_log.insert(round, prevotes);
    }

    /// The prevotes logged for `round`, if there are more than a quorum takes.
    pub fn get_round(&self, round: u64) -> (r: Option<Vec<Prevote<N, H>>>)
        ensures
            r is Some <==> self@.logged(round) is Some,
            r matches Some(prevotes) ==> {
                &&& prevotes@.len() == self@.message_log[round].len()
                &&& forall|i: int|
                    0 <= i < prevotes@.len() ==> cloned(
                        self@.message_log[round][i],
                        #[trigger] prevotes@[i],
                    )
                &&& clones_exactly::<H>() ==> prevotes@ == self@.message_log[round]
            },
    {
        match self.message_log.get(&round) {
            Some(prevotes) if prevotes.len() > self.voters.threshold() => {
                let copy = prevotes.clone();
                proof {
                    if clones_exactly::<H>() {
                        lemma_prevotes_clone_exactly::<N, H>();
                        assert(copy@ =~= prevotes@);
                    }
                }
                Some(copy)
            },
            _ => None,
        }
    }

    /// Takes `target` as the last finalized block.
    pub fn set_finalized_target(&mut self, target: (N, H))
        ensures
            final(self)@ == old(self)@.retargeted(target),
    {
        proof {
            N::lawful();
        }
        self.decision.insert(target.0, target.1);
        self.height = target.0;
    }
}

impl<N: BlockNumberOps, H: Clone + PartialEq, I> GlobalState<N, H, I> {
    /// Whether the voter votes for a proposal that comes in `round`.
    pub fn endorses(&self, proposal: &Proposal<N, H>, round: u64) -> (r: bool)
        ensures
            compares_exactly::<H>() || !self@.compares_with_lock(*proposal) ==> r
                == self@.endorses(*proposal, round),
            exists|equal: bool| #[trigger]
                self@.lock_compared(*proposal, equal) && r == self@.endorses_as(
                    *proposal,
                    round,
                    equal,
                ),
    {
        let r = match proposal.valid_round {
            Some(valid_round) => valid_round < round && self.get_round(valid_round).is_some(),
            None => match (&self.locked_round, &self.locked_value) {
                (None, _) => true,
                (Some(_), Some(value)) => equals(value, &proposal.target_hash),
                (Some(_), None) => false,
            },
        };
        assert(self@.lock_compared(*proposal, r));
        r
    }

    /// The prevote on a proposal that comes in `round`.
    pub fn prevote_on(&self, proposal: &Proposal<N, H>, round: u64) -> (r: Prevote<N, H>)
        ensures
            r.target_height == proposal.target_height,
            r.round == proposal.round,
            exists|equal: bool| #[trigger]
                self@.lock_compared(*proposal, equal) && (r.target_hash is Some
                    <==> self@.endorses_as(*proposal, round, equal)),
            r.target_hash matches Some(hash) ==> cloned(proposal.target_hash, hash),
            clones_exactly::<H>() && (compares_exactly::<H>() || !self@.compares_with_lock(
                *proposal,
            )) ==> r == self@.prevote_on(*proposal, round),
    {
        let target_hash = if self.endorses(proposal, round) {
            Some(copy_of(&proposal.target_hash))
        } else {
            None
        };
        Prevote { target_hash, target_height: proposal.target_height, round: proposal.round }
    }

    /// The prevote when no proposal came.
    pub fn prevote_on_none(&self) -> (r: Prevote<N, H>)
        ensures
            r == self@.prevote_on_none(),
    {
        Prevote { target_hash: None, target_height: self.height, round: self.round }
    }

    /// Notes that the prevote was sent.
    pub(crate) fn prevote_sent(&mut self)
        ensures
            final(self)@ == old(self)@.prevote_sent(),
    {
        self.current_state = CurrentState::Prevote;
    }

    /// Locks the voter on what a quorum of prevotes stands for.
    pub(crate) fn lock(&mut self, value: &Option<H>)
        ensures
            final(self)@ == (GlobalView {
                locked_value: final(self)@.locked_value,
                valid_value: final(self)@.valid_value,
                ..old(self)@.locked_on(*value)
            }),
            cloned_option(*value, final(self)@.locked_value),
            *value is Some ==> cloned_option(*value, final(self)@.valid_value),
            clones_exactly::<H>() || *value is None ==> final(self)@ == old(self)@.locked_on(
                *value,
            ),
    {
        self.locked_round = Some(self.round);
        match value {
            Some(hash) => {
                self.locked_value = Some(copy_of(hash));
                self.valid_value = Some(copy_of(hash));
                self.valid_round = Some(self.round);
                self.current_state = CurrentState::Precommit;
            },
            None => {
                self.locked_value = None;
            },
        }
    }

    /// Records the block `hash`, finalized at `height`, moves on to the next
    /// height and releases the lock.
    pub(crate) fn finalize(&mut self, height: N, hash: H)
        requires
            has_successor(old(self)@.height),
        ensures
            final(self)@ == old(self)@.finalized(height, hash),
    {
        proof {
            N::lawful();
        }
        self.decision.insert(height, hash);
        self.height = self.height + N::one();
        self.locked_value = None;
        self.locked_round = None;
        self.valid_value = None;
        self.valid_round = None;
    }
}

impl<N: BlockNumberOps, H, I> GlobalState<N, H, I> {
    /// The voter itself.
    pub fn local_id(&self) -> (r: &I)
        ensures
            *r == self@.local_id,
    {
        &self.local_id
    }

    /// The height of the last finalized block.
    pub fn height(&self) -> (r: N)
        ensures
            r == self@.height,
    {
        self.height
    }

    /// The round that the voter is in.
    pub fn round(&self) -> (r: u64)
        ensures
            r == self@.round,
    {
        self.round
    }

    /// The block finalized at `height`, if there is one.
    pub fn decided(&self, height: &N) -> (r: Option<&H>)
        ensures
            r is Some <==> self@.decision.contains_key(*height),
            r matches Some(hash) ==> *hash == self@.decision[*height],
    {
        proof {
            N::lawful();
        }
        self.decision.get(height)
    }

    /// The round in which the voter locked, if it is locked.
    pub fn locked_round(&self) -> (r: Option<u64>)
        ensures
            r == self@.locked_round,
    {
        self.locked_round
    }

    /// The block that the voter is locked on, if there is one.
    pub fn locked_value(&self) -> (r: Option<&H>)
        ensures
            r is Some <==> self@.locked_value is Some,
            r matches Some(hash) ==> Some(*hash) == self@.locked_value,
    {
        self.locked_value.as_ref()
    }

    /// The block that the voter proposes again, if there is one.
    pub fn valid_value(&self) -> (r: Option<&H>)
        ensures
            r is Some <==> self@.valid_value is Some,
            r matches Some(hash) ==> Some(*hash) == self@.valid_value,
    {
        self.valid_value.as_ref()
    }

    /// The round in which that block had a quorum.
    pub fn valid_round(&self) -> (r: Option<u64>)
        ensures
            r == self@.valid_round,
    {
        self.valid_round
    }

    /// The voters.
    pub fn voters(&self) -> (r: &VoterSet<I>)
        ensures
            r@ == self@.voters,
    {
        &self.voters
    }

    /// The step that the voter is in.
    pub fn current_state(&self) -> (r: CurrentState)
        ensures
            r == self@.current_state,
    {
        self.current_state
    }
}

} // verus!
