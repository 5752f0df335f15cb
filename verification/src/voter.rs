//! A voter, which goes through one round after another.

use crate::global::{CurrentState, GlobalState, GlobalView};
use crate::messages::{FinalizedCommit, Prevote};
use crate::number::BlockNumberOps;
use crate::round::{Action, ActionView, Event, Round, RoundView, Step, Transition};
use crate::round_state::RoundStateView;
use crate::value::{clones_exactly, copy_of};
use crate::voters::{VoterSet, VoterSetView};
use vstd::prelude::*;

verus! {

/// A voter, which goes through one round after another.
#[derive(Debug)]
pub struct Voter<N, H, I> {
    global: GlobalState<N, H, I>,
}

/// A block to hand to the environment as finalized.
#[derive(Debug, PartialEq, Eq)]
pub struct Finalization<N, H, S, I> {
    pub round: u64,
    pub hash: H,
    pub number: N,
    pub commit: FinalizedCommit<N, H, S, I>,
}

impl<N, H, I> View for Voter<N, H, I> {
    type V = GlobalView<N, H, I>;

    closed spec fn view(&self) -> GlobalView<N, H, I> {
        self.global@
    }
}

impl<N, H, I> GlobalView<N, H, I> {
    /// The state of a voter that starts from the finalized block `target`.
    pub open spec fn starting_from(local_id: I, voters: VoterSetView<I>, target: (N, H)) -> Self {
        GlobalView {
            local_id,
            height: target.0,
            round: 0,
            decision: map![target.0 => target.1],
            locked_value: None,
            locked_round: None,
            valid_value: None,
            valid_round: None,
            voters,
            current_state: CurrentState::Proposal,
            message_log: Map::empty(),
        }
    }
}

impl<N: BlockNumberOps, H: Clone + PartialEq, I: Clone + PartialEq> Voter<N, H, I> {
    /// A voter that starts from the finalized block `finalized_target`.
    pub fn new(local_id: I, voters: VoterSet<I>, finalized_target: (N, H)) -> (r: Self)
        ensures
            r@ == GlobalView::starting_from(local_id, voters@, finalized_target),
    {
        let mut global = GlobalState::new(local_id, voters);
        global.set_finalized_target(finalized_target);
        Voter { global }
    }

    /// What the voter keeps from one round to the next.
    pub fn global(&self) -> (r: &GlobalState<N, H, I>)
        ensures
            r@ == self@,
    {
        &self.global
    }

    /// The round that the voter is in, before it starts.
    pub fn open_round<S: Clone>(&self) -> (r: Round<N, H, S, I>)
        ensures
            r@.height == self@.height,
            r@.round == self@.round,
            r@.step == Step::Pausing,
            cloned(self@.voters.proposer(self@.round), r@.state.proposer),
            r@.state == RoundStateView::<N, H, S, I>::empty(r@.state.proposer),
            clones_exactly::<I>() ==> r@ == RoundView::<N, H, S, I>::opened(self@),
    {
        Round::new(self.global.round(), &self.global)
    }

    /// Answers an event of a round with the next action.
    ///
    /// The answer is the one that the comparison leads to which it takes, with
    /// copies of the values that it copies. What was decided at other heights
    /// than that of a newly finalized block stays.
    pub fn advance<S: Clone>(
        &mut self,
        round: &mut Round<N, H, S, I>,
        event: Event<N, H>,
    ) -> (action: Action<N, H, S, I>)
        requires
            old(round)@.accepts(old(self)@, event),
        ensures
            old(round)@.copies_exactly(old(self)@, event) ==> (Transition {
                round: final(round)@,
                global: final(self)@,
                action: action@,
            }) == old(round)@.next(old(self)@, event),
            exists|equal: bool| #[trigger]
                old(round)@.compares(old(self)@, event, equal) && old(round)@.next_as(
                    old(self)@,
                    event,
                    equal,
                ).copied_to(
                    Transition { round: final(round)@, global: final(self)@, action: action@ },
                ),
            !old(round)@.keeps_copies(old(self)@, event) ==> final(self)@ == old(round)@.next(
                old(self)@,
                event,
            ).global,
            forall|n: N| #[trigger]
                old(self)@.decision.contains_key(n) && !(action@ matches ActionView::Finish(
                    Ok(commit),
                ) && commit.target_number == n) ==> final(self)@.decision[n] == old(
                    self,
                )@.decision[n],
    {
        round.advance(&mut self.global, event)
    }

    /// Takes in how a round ended. A finalized block is for the environment;
    /// the prevotes of a round without one are logged.
    pub fn close_round<S: Clone>(
        &mut self,
        round: u64,
        outcome: Result<FinalizedCommit<N, H, S, I>, Vec<Prevote<N, H>>>,
    ) -> (r: Option<Finalization<N, H, S, I>>)
        ensures
            match outcome {
                Ok(commit) => {
                    &&& final(self)@ == old(self)@
                    &&& r is Some
                    &&& r->0.round == round
                    &&& cloned(commit.target_hash, r->0.hash)
                    &&& clones_exactly::<H>() ==> r->0.hash == commit.target_hash
                    &&& r->0.number == commit.target_number
                    &&& r->0.commit == commit
                },
                Err(prevotes) => {
                    &&& final(self)@ == old(self)@.appended(round, prevotes@)
                    &&& r is None
                },
            },
    {
        match outcome {
            Ok(commit) => Some(
                Finalization {
                    round,
                    hash: copy_of(&commit.target_hash),
                    number: commit.target_number,
                    commit,
                },
            ),
            Err(prevotes) => {
                self.global.append_round(round, prevotes);
                None
            },
        }
    }
}

} // verus!
