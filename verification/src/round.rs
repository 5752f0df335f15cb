//! One round of voting, as a machine that answers events with actions.

use crate::global::{GlobalState, GlobalView};
use crate::messages::{
    lemma_commit_copied, lemma_commits_clone_exactly, lemma_precommit_copied_again,
    lemma_prevote_copied, lemma_prevotes_clone_exactly, prevotes_copied, FinalizedCommit,
    FinalizedCommitView, Message, Precommit, Prevote, Proposal, SignedCommit, SignedMessage,
};
use crate::number::{has_successor, successor, BlockNumberOps};
use crate::round_state::{RoundState, RoundStateView};
use crate::value::{
    clones_exactly, compared, compares_exactly, copied, copy_of, lemma_copied, lemma_copied_again,
    lemma_option_copied_again,
};
use vstd::prelude::*;

verus! {

/// How long a round pauses before it starts, in milliseconds.
pub const ROUND_PAUSE_MILLIS: u64 = 1000;

/// How long each wait of a round lasts at most, in milliseconds.
pub const WAIT_MILLIS: u64 = 1000;

/// Where a round stands.
#[derive(Debug, Clone, Copy, PartialEq, Eq, Structural)]
pub enum Step {
    /// Before the round starts.
    Pausing,
    /// Until the environment gives a block to propose.
    Proposing,
    /// Until the proposal is sent.
    SendingProposal,
    /// Until the proposal comes in.
    AwaitingProposal,
    /// Until the prevote is sent.
    SendingPrevote,
    /// Until a quorum of prevotes comes in.
    AwaitingPrevotes,
    /// Until the precommit is sent.
    SendingPrecommit,
    /// Until a quorum of precommits comes in.
    AwaitingPrecommits,
    /// The round is over.
    Finished,
}

/// What happens to a round.
#[derive(Debug, PartialEq, Eq)]
pub enum Event<N, H> {
    /// The pause before the round is over.
    Started,
    /// The environment gave the block to propose.
    Proposed { target_height: N, target_hash: H },
    /// The last message was sent.
    Sent,
    /// Something may have come in; `expired` tells whether the wait has
    /// lasted as long as it may.
    Polled { expired: bool },
}

/// What a round asks for.
#[derive(Debug, PartialEq, Eq)]
pub enum Action<N, H, S, I> {
    /// Ask the environment for a block to propose on top of `parent`.
    Propose { round: u64, parent: H },
    /// Send a message to all voters.
    Send(Message<N, H>),
    /// Wait for what comes in.
    Wait,
    /// The round is over, with a finalized block or with the prevotes that
    /// came in.
    Finish(Result<FinalizedCommit<N, H, S, I>, Vec<Prevote<N, H>>>),
}

/// What an [`Action`] holds.
#[verifier::ext_equal]
pub enum ActionView<N, H, S, I> {
    Propose { round: u64, parent: H },
    Send(Message<N, H>),
    Wait,
    Finish(Result<FinalizedCommitView<N, H, S, I>, Seq<Prevote<N, H>>>),
}

impl<N, H, S, I> View for Action<N, H, S, I> {
    type V = ActionView<N, H, S, I>;

    open spec fn view(&self) -> ActionView<N, H, S, I> {
        match *self {
            Action::Propose { round, parent } => ActionView::Propose { round, parent },
            Action::Send(message) => ActionView::Send(message),
            Action::Wait => ActionView::Wait,
            Action::Finish(Ok(commit)) => ActionView::Finish(Ok(commit@)),
            Action::Finish(Err(prevotes)) => ActionView::Finish(Err(prevotes@)),
        }
    }
}

/// One round of voting.
#[derive(Debug)]
pub struct Round<N, H, S, I> {
    height: N,
    round: u64,
    step: Step,
    round_state: RoundState<N, H, S, I>,
}

/// What a [`Round`] holds.
#[verifier::ext_equal]
pub struct RoundView<N, H, S, I> {
    /// The height of the last finalized block when the round started.
    pub height: N,
    pub round: u64,
    pub step: Step,
    pub state: RoundStateView<N, H, S, I>,
}

impl<N, H, S, I> View for Round<N, H, S, I> {
    type V = RoundView<N, H, S, I>;

    closed spec fn view(&self) -> RoundView<N, H, S, I> {
        RoundView {
            height: self.height,
            round: self.round,
            step: self.step,
            state: self.round_state@,
        }
    }
}

impl<N, H, S, I> RoundView<N, H, S, I> {
    /// The round that a voter is in, before it starts.
    pub open spec fn opened(global: GlobalView<N, H, I>) -> Self {
        RoundView {
            height: global.height,
            round: global.round,
            step: Step::Pausing,
            state: RoundStateView::empty(global.voters.proposer(global.round)),
        }
    }

    /// The same round at another step.
    pub open spec fn at(self, step: Step) -> Self {
        RoundView { step, ..self }
    }

    /// The same round after a message came.
    pub open spec fn received(self, signed_msg: SignedMessage<N, H, S, I>) -> Self {
        RoundView { state: self.state.received(signed_msg), ..self }
    }

    /// The same round after a message came from a voter that is taken for the
    /// proposer or is not.
    pub open spec fn received_as(
        self,
        signed_msg: SignedMessage<N, H, S, I>,
        from_proposer: bool,
    ) -> Self {
        RoundView { state: self.state.received_as(signed_msg, from_proposer), ..self }
    }

    /// A quorum of prevotes has come in.
    pub open spec fn has_prevote_quorum(self, global: GlobalView<N, H, I>) -> bool {
        self.state.prevotes.len() >= global.voters.threshold
    }

    /// A quorum of precommits has come in.
    pub open spec fn has_precommit_quorum(self, global: GlobalView<N, H, I>) -> bool {
        self.state.precommits.len() >= global.voters.threshold
    }

    /// The precommit once a quorum of prevotes has come in: it follows the
    /// first of them.
    pub open spec fn precommit_on_quorum(self) -> Precommit<N, H> {
        Precommit {
            target_hash: self.state.prevotes.first().target_hash,
            target_height: self.state.prevotes.first().target_height,
            round: self.round,
        }
    }

    /// The precommit when no quorum of prevotes came in.
    pub open spec fn precommit_on_none(self) -> Precommit<N, H> {
        Precommit { target_hash: None, target_height: self.height, round: self.round }
    }

    /// The block that a quorum of precommits finalizes: that of the first of
    /// them, if it is for a block.
    pub open spec fn commit_on_quorum(self) -> Option<FinalizedCommitView<N, H, S, I>> {
        match self.state.precommits.first().commit.target_hash {
            Some(hash) => Some(
                FinalizedCommitView {
                    commits: self.state.precommits,
                    target_hash: hash,
                    target_number: self.state.precommits.first().commit.target_height,
                },
            ),
            None => None,
        }
    }
}

impl<N, H: Clone, S: Clone, I: Clone> ActionView<N, H, S, I> {
    /// `other` is the same action with copies of the hashes, signatures and
    /// senders.
    pub open spec fn copied_to(self, other: Self) -> bool {
        match (self, other) {
            (
                ActionView::Propose { round, parent },
                ActionView::Propose { round: other_round, parent: other_parent },
            ) => other_round == round && copied(parent, other_parent),
            (ActionView::Send(message), ActionView::Send(other_message)) => message.copied_to(
                other_message,
            ),
            (ActionView::Wait, ActionView::Wait) => true,
            (
                ActionView::Finish(Ok(commit)),
                ActionView::Finish(Ok(other_commit)),
            ) => commit.copied_to(other_commit),
            (
                ActionView::Finish(Err(prevotes)),
                ActionView::Finish(Err(other_prevotes)),
            ) => prevotes_copied(prevotes, other_prevotes),
            _ => false,
        }
    }
}

/// A state is a copy of itself.
proof fn lemma_state_copied<N, H: Clone, I>(global: GlobalView<N, H, I>)
    ensures
        global.copied_to(global),
        forall|hash: H| #[trigger] copied(hash, hash),
{
    assert forall|hash: H| #[trigger] copied(hash, hash) by {
        lemma_copied(hash);
    }
}

/// What an event leads to: the round, the voter's state and the action.
#[verifier::ext_equal]
#[verifier::reject_recursive_types(N)]
pub struct Transition<N, H, S, I> {
    pub round: RoundView<N, H, S, I>,
    pub global: GlobalView<N, H, I>,
    pub action: ActionView<N, H, S, I>,
}

impl<N, H: Clone, S: Clone, I: Clone> Transition<N, H, S, I> {
    /// `other` leads to the same, with copies of the hashes, signatures and
    /// senders in the voter's state and in the action.
    pub open spec fn copied_to(self, other: Self) -> bool {
        &&& other.round == self.round
        &&& self.global.copied_to(other.global)
        &&& self.action.copied_to(other.action)
    }
}

impl<N: BlockNumberOps, H, S, I> RoundView<N, H, S, I> {
    /// The start of a round: the proposer proposes, the others wait.
    pub open spec fn on_started(self, global: GlobalView<N, H, I>) -> Transition<N, H, S, I> {
        self.on_started_as(global, self.state.proposer == global.local_id)
    }

    /// The start of a round for a voter that is the proposer or is not.
    pub open spec fn on_started_as(
        self,
        global: GlobalView<N, H, I>,
        is_proposer: bool,
    ) -> Transition<N, H, S, I> {
        let round = RoundView { height: global.height, round: global.round, ..self };
        if !is_proposer {
            Transition { round: round.at(Step::AwaitingProposal), global, action: ActionView::Wait }
        } else if let Some(value) = global.valid_value {
            Transition {
                round: round.at(Step::SendingProposal),
                global,
                action: ActionView::Send(
                    Message::Proposal(
                        Proposal {
                            target_hash: value,
                            target_height: successor(global.height),
                            valid_round: global.valid_round,
                            round: global.round,
                        },
                    ),
                ),
            }
        } else {
            Transition {
                round: round.at(Step::Proposing),
                global,
                action: ActionView::Propose {
                    round: global.round,
                    parent: global.decision[global.height],
                },
            }
        }
    }

    /// The proposal of a block that the environment gave.
    pub open spec fn on_proposed(
        self,
        global: GlobalView<N, H, I>,
        target_height: N,
        target_hash: H,
    ) -> Transition<N, H, S, I> {
        Transition {
            round: self.at(Step::SendingProposal),
            global,
            action: ActionView::Send(
                Message::Proposal(
                    Proposal { target_hash, target_height, valid_round: None, round: self.round },
                ),
            ),
        }
    }

    /// The end of the wait for a proposal: the prevote on it, or the prevote
    /// for no block once the wait has expired.
    pub open spec fn on_proposal(
        self,
        global: GlobalView<N, H, I>,
        expired: bool,
    ) -> Transition<N, H, S, I> {
        self.on_proposal_as(
            global,
            expired,
            self.state.proposal matches Some(proposal) && global.locked_value == Some(
                proposal.target_hash,
            ),
        )
    }

    /// The end of the wait for a proposal, where `equal` tells whether its
    /// block is taken for the one that the voter is locked on.
    pub open spec fn on_proposal_as(
        self,
        global: GlobalView<N, H, I>,
        expired: bool,
        equal: bool,
    ) -> Transition<N, H, S, I> {
        match self.state.proposal {
            Some(proposal) => Transition {
                round: self.at(Step::SendingPrevote),
                global,
                action: ActionView::Send(
                    Message::Prevote(
                        proposal.prevoted(global.endorses_as(proposal, self.round, equal)),
                    ),
                ),
            },
            None => if expired {
                Transition {
                    round: self.at(Step::SendingPrevote),
                    global,
                    action: ActionView::Send(Message::Prevote(global.prevote_on_none())),
                }
            } else {
                Transition { round: self, global, action: ActionView::Wait }
            },
        }
    }

    /// The end of the wait for prevotes: the precommit that follows them and
    /// the lock, or the precommit for no block once the wait has expired.
    pub open spec fn on_prevotes(
        self,
        global: GlobalView<N, H, I>,
        expired: bool,
    ) -> Transition<N, H, S, I> {
        if self.has_prevote_quorum(global) {
            Transition {
                round: self.at(Step::SendingPrecommit),
                global: global.locked_on(self.state.prevotes.first().target_hash),
                action: ActionView::Send(Message::Precommit(self.precommit_on_quorum())),
            }
        } else if expired {
            Transition {
                round: self.at(Step::SendingPrecommit),
                global,
                action: ActionView::Send(Message::Precommit(self.precommit_on_none())),
            }
        } else {
            Transition { round: self, global, action: ActionView::Wait }
        }
    }

    /// The end of the wait for precommits: the block that they finalize, or
    /// else the prevotes that came in.
    pub open spec fn on_precommits(
        self,
        global: GlobalView<N, H, I>,
        expired: bool,
    ) -> Transition<N, H, S, I> {
        if !self.has_precommit_quorum(global) && !expired {
            Transition { round: self, global, action: ActionView::Wait }
        } else if self.has_precommit_quorum(global) && self.commit_on_quorum() is Some {
            let commit = self.commit_on_quorum().unwrap();
            Transition {
                round: self.at(Step::Finished),
                global: global.finalized(commit.target_number, commit.target_hash),
                action: ActionView::Finish(Ok(commit)),
            }
        } else {
            Transition {
                round: self.at(Step::Finished),
                global,
                action: ActionView::Finish(Err(self.state.prevotes)),
            }
        }
    }

    /// What an event leads to. One that the round does not wait for changes
    /// nothing.
    pub open spec fn next(
        self,
        global: GlobalView<N, H, I>,
        event: Event<N, H>,
    ) -> Transition<N, H, S, I> {
        match (self.step, event) {
            (Step::Pausing, Event::Started) => self.on_started(global),
            (
                Step::Proposing,
                Event::Proposed { target_height, target_hash },
            ) => self.on_proposed(global, target_height, target_hash),
            (Step::SendingProposal, Event::Sent) => Transition {
                round: self.at(Step::AwaitingProposal),
                global,
                action: ActionView::Wait,
            },
            (Step::AwaitingProposal, Event::Polled { expired }) => self.on_proposal(
                global,
                expired,
            ),
            (Step::SendingPrevote, Event::Sent) => Transition {
                round: self.at(Step::AwaitingPrevotes),
                global: global.prevote_sent(),
                action: ActionView::Wait,
            },
            (Step::AwaitingPrevotes, Event::Polled { expired }) => self.on_prevotes(
                global,
                expired,
            ),
            (Step::SendingPrecommit, Event::Sent) => Transition {
                round: self.at(Step::AwaitingPrecommits),
                global,
                action: ActionView::Wait,
            },
            (Step::AwaitingPrecommits, Event::Polled { expired }) => self.on_precommits(
                global,
                expired,
            ),
            _ => Transition { round: self, global, action: ActionView::Wait },
        }
    }

    /// What an event leads to, where `equal` tells what the comparison gives
    /// that the answer takes: at the start, of the proposer with the voter; on
    /// a proposal, of its block with the one that the voter is locked on.
    pub open spec fn next_as(
        self,
        global: GlobalView<N, H, I>,
        event: Event<N, H>,
        equal: bool,
    ) -> Transition<N, H, S, I> {
        match (self.step, event) {
            (Step::Pausing, Event::Started) => self.on_started_as(global, equal),
            (Step::AwaitingProposal, Event::Polled { expired }) => self.on_proposal_as(
                global,
                expired,
                equal,
            ),
            _ => self.next(global, event),
        }
    }

    /// The answer to an event leaves a copy of a hash in the voter's state: the
    /// one that it locks on, or the one that it finalizes.
    pub open spec fn keeps_copies(self, global: GlobalView<N, H, I>, event: Event<N, H>) -> bool {
        match (self.step, event) {
            (Step::AwaitingPrevotes, Event::Polled { .. }) => self.has_prevote_quorum(global)
                && self.state.prevotes.first().target_hash is Some,
            (Step::AwaitingPrecommits, Event::Polled { .. }) => self.has_precommit_quorum(global)
                && self.state.precommits.first().commit.target_hash is Some,
            _ => false,
        }
    }
}

impl<N, H: PartialEq, S, I: PartialEq> RoundView<N, H, S, I> {
    /// `equal` is what the comparison may give that the answer to an event
    /// takes, if it takes one.
    pub open spec fn compares(
        self,
        global: GlobalView<N, H, I>,
        event: Event<N, H>,
        equal: bool,
    ) -> bool {
        match (self.step, event) {
            (Step::Pausing, Event::Started) => compared(
                self.state.proposer,
                global.local_id,
                equal,
            ),
            (Step::AwaitingProposal, Event::Polled { .. }) => match self.state.proposal {
                Some(proposal) => global.lock_compared(proposal, equal),
                None => true,
            },
            _ => true,
        }
    }
}

impl<N: BlockNumberOps, H, S, I: PartialEq> RoundView<N, H, S, I> {
    /// The event can be answered.
    ///
    /// A proposer builds on the block finalized at the current height, or
    /// proposes a block again at the next height, so that these have to
    /// exist. A block from the environment has to be one for the next height.
    /// A quorum has to have a first vote, and a height at which a block is
    /// finalized a next one.
    pub open spec fn accepts(self, global: GlobalView<N, H, I>, event: Event<N, H>) -> bool {
        match (self.step, event) {
            (Step::Pausing, Event::Started) => (forall|equal: bool| #[trigger]
                compared(self.state.proposer, global.local_id, equal) ==> !equal)
                || global.can_propose(),
            (Step::Proposing, Event::Proposed { target_height, .. }) => {
                &&& has_successor(self.height)
                &&& target_height == successor(self.height)
            },
            (Step::AwaitingPrevotes, Event::Polled { .. }) => self.has_prevote_quorum(global)
                ==> self.state.prevotes.len() > 0,
            (Step::AwaitingPrecommits, Event::Polled { .. }) => self.has_precommit_quorum(global)
                ==> {
                &&& self.state.precommits.len() > 0
                &&& self.state.precommits.first().commit.target_hash is Some ==> has_successor(
                    global.height,
                )
            },
            _ => true,
        }
    }

}

impl<N, H: Clone + PartialEq, S: Clone, I: Clone + PartialEq> RoundView<N, H, S, I> {
    /// The values that the answer to an event copies and compares are copied
    /// and compared as what they are.
    ///
    /// Ids are compared at the start, hashes only where a locked voter meets a
    /// fresh proposal. Hashes are copied into what the voter proposes, votes
    /// for, locks on and hands out at the end; signatures and ids only with
    /// the precommits of a finalized block.
    pub open spec fn copies_exactly(
        self,
        global: GlobalView<N, H, I>,
        event: Event<N, H>,
    ) -> bool {
        match (self.step, event) {
            (Step::Pausing, Event::Started) => compares_exactly::<I>() && (
            clones_exactly::<H>() || self.state.proposer != global.local_id),
            (Step::AwaitingProposal, Event::Polled { .. }) => match self.state.proposal {
                Some(proposal) => clones_exactly::<H>() && (compares_exactly::<H>()
                    || !global.compares_with_lock(proposal)),
                None => true,
            },
            (Step::AwaitingPrevotes, Event::Polled { .. }) => clones_exactly::<H>()
                || !self.has_prevote_quorum(global)
                || self.state.prevotes.first().target_hash is None,
            (Step::AwaitingPrecommits, Event::Polled { expired }) => {
                &&& clones_exactly::<H>() || !expired && !self.has_precommit_quorum(global)
                &&& clones_exactly::<S>() && clones_exactly::<I>() || !self.has_precommit_quorum(
                    global,
                ) || self.state.precommits.first().commit.target_hash is None
            },
            _ => true,
        }
    }
}

impl<N: BlockNumberOps, H: Clone + PartialEq, S: Clone, I: Clone + PartialEq> Round<N, H, S, I> {
    /// The round number `round`, before it starts.
    pub fn new(round: u64, global: &GlobalState<N, H, I>) -> (r: Self)
        ensures
            r@.height == global@.height,
            r@.round == round,
            r@.step == Step::Pausing,
            cloned(global@.voters.proposer(round), r@.state.proposer),
            r@.state == RoundStateView::<N, H, S, I>::empty(r@.state.proposer),
            clones_exactly::<I>() ==> r@.state.proposer == global@.voters.proposer(round),
    {
        let proposer = global.voters().get_proposer(round);
        Round {
            height: global.height(),
            round,
            step: Step::Pausing,
            round_state: RoundState::new(proposer),
        }
    }

    /// Where the round stands.
    pub fn step(&self) -> (r: Step)
        ensures
            r == self@.step,
    {
        self.step
    }

    /// The number of the round.
    pub fn number(&self) -> (r: u64)
        ensures
            r == self@.round,
    {
        self.round
    }

    /// What the voter has received in the round.
    pub fn round_state(&self) -> (r: &RoundState<N, H, S, I>)
        ensures
            r@ == self@.state,
    {
        &self.round_state
    }

    /// Takes in a message.
    pub fn process_incoming(&mut self, signed_msg: SignedMessage<N, H, S, I>)
        ensures
            compares_exactly::<I>() || !(signed_msg.message is Proposal) ==> final(self)@
                == old(self)@.received(signed_msg),
            signed_msg.message is Proposal ==> exists|from_proposer: bool| #[trigger]
                compared(old(self)@.state.proposer, signed_msg.id, from_proposer) && final(self)@
                    == old(self)@.received_as(signed_msg, from_proposer),
    {
        self.round_state.process_incoming(signed_msg);
    }

    /// The prevote that a quorum of prevotes is taken to stand for: the first.
    fn valid_prevotes(&self, prevotes: Vec<Prevote<N, H>>) -> (r: Prevote<N, H>)
        requires
            prevotes@.len() > 0,
        ensures
            cloned(prevotes@.first(), r),
            clones_exactly::<H>() ==> r == prevotes@.first(),
    {
        proof {
            if clones_exactly::<H>() {
                lemma_prevotes_clone_exactly::<N, H>();
            }
        }
        copy_of(&prevotes[0])
    }

    /// The precommit that a quorum of precommits is taken to stand for: the
    /// first.
    fn valid_precommits(&self, precommits: Vec<SignedCommit<N, H, S, I>>) -> (r: Precommit<N, H>)
        requires
            precommits@.len() > 0,
        ensures
            cloned(precommits@.first().commit, r),
            clones_exactly::<H>() ==> r == precommits@.first().commit,
    {
        copy_of(&precommits[0].commit)
    }

    /// Whether an event can be answered.
    pub fn is_accepted(&self, global: &GlobalState<N, H, I>, event: &Event<N, H>) -> (r: bool)
        ensures
            compares_exactly::<I>() || !(self@.step == Step::Pausing && *event is Started) ==> r
                == self@.accepts(global@, *event),
            self@.step == Step::Pausing && *event is Started ==> exists|is_proposer: bool|
                #[trigger]
                compared(self@.state.proposer, global@.local_id, is_proposer) && r == (!is_proposer
                    || global@.can_propose()),
    {
        proof {
            N::lawful();
            reveal(vstd::laws_eq::obeys_concrete_eq);
        }
        match (self.step, event) {
            (Step::Pausing, Event::Started) => !self.round_state.is_proposer(global)
                || if global.valid_value().is_some() {
                global.height().has_next()
            } else {
                global.decided(&global.height()).is_some()
            },
            (Step::Proposing, Event::Proposed { target_height, .. }) => self.height.has_next()
                && *target_height == self.height + N::one(),
            (Step::AwaitingPrevotes, Event::Polled { .. }) => self.round_state.prevotes().len()
                < global.voters().threshold() || self.round_state.prevotes().len() > 0,
            (
                Step::AwaitingPrecommits,
                Event::Polled { .. },
            ) => self.round_state.precommits().len() < global.voters().threshold() || (
            self.round_state.precommits().len() > 0 && (
            self.round_state.precommits()[0].commit.target_hash.is_none()
                || global.height().has_next())),
            _ => true,
        }
    }

    /// Answers an event with the next action.
    ///
    /// The answer is the one that the comparison leads to which it takes, with
    /// copies of the values that it copies. What was decided at other heights
    /// than that of a newly finalized block stays.
    pub fn advance(
        &mut self,
        global: &mut GlobalState<N, H, I>,
        event: Event<N, H>,
    ) -> (action: Action<N, H, S, I>)
        requires
            old(self)@.accepts(old(global)@, event),
        ensures
            old(self)@.copies_exactly(old(global)@, event) ==> (Transition {
                round: final(self)@,
                global: final(global)@,
                action: action@,
            }) == old(self)@.next(old(global)@, event),
            exists|equal: bool| #[trigger]
                old(self)@.compares(old(global)@, event, equal) && old(self)@.next_as(
                    old(global)@,
                    event,
                    equal,
                ).copied_to(
                    Transition { round: final(self)@, global: final(global)@, action: action@ },
                ),
            !old(self)@.keeps_copies(old(global)@, event) ==> final(global)@ == old(self)@.next(
                old(global)@,
                event,
            ).global,
            forall|n: N| #[trigger]
                old(global)@.decision.contains_key(n) && !(action@ matches ActionView::Finish(
                    Ok(commit),
                ) && commit.target_number == n) ==> final(global)@.decision[n] == old(
                    global,
                )@.decision[n],
    {
        proof {
            lemma_state_copied(global@);
            assert(!(self@.step == Step::Pausing && event is Started) && !(self@.step
                == Step::AwaitingProposal && event is Polled) ==> self@.compares(
                global@,
                event,
                true,
            ));
        }
        match (self.step, event) {
            (Step::Pausing, Event::Started) => self.start(global),
            (
                Step::Proposing,
                Event::Proposed { target_height, target_hash },
            ) => self.propose(target_height, target_hash),
            (Step::SendingProposal, Event::Sent) => {
                self.step = Step::AwaitingProposal;
                Action::Wait
            },
            (Step::AwaitingProposal, Event::Polled { expired }) => self.poll_proposal(
                global,
                expired,
            ),
            (Step::SendingPrevote, Event::Sent) => {
                global.prevote_sent();
                self.step = Step::AwaitingPrevotes;
                Action::Wait
            },
            (Step::AwaitingPrevotes, Event::Polled { expired }) => self.poll_prevotes(
                global,
                expired,
            ),
            (Step::SendingPrecommit, Event::Sent) => {
                self.step = Step::AwaitingPrecommits;
                Action::Wait
            },
            (Step::AwaitingPrecommits, Event::Polled { expired }) => self.poll_precommits(
                global,
                expired,
            ),
            _ => Action::Wait,
        }
    }

    /// Starts the round.
    fn start(&mut self, global: &GlobalState<N, H, I>) -> (action: Action<N, H, S, I>)
        requires
            old(self)@.step == Step::Pausing,
            old(self)@.accepts(global@, Event::Started),
        ensures
            old(self)@.copies_exactly(global@, Event::Started) ==> (Transition {
                round: final(self)@,
                global: global@,
                action: action@,
            }) == old(self)@.on_started(global@),
            exists|equal: bool| #[trigger]
                old(self)@.compares(global@, Event::Started, equal) && old(self)@.on_started_as(
                    global@,
                    equal,
                ).copied_to(
                    Transition { round: final(self)@, global: global@, action: action@ },
                ),
    {
        let ghost before = self@;
        proof {
            N::lawful();
            lemma_state_copied(global@);
        }
        self.height = global.height();
        self.round = global.round();
        if !self.round_state.is_proposer(global) {
            self.step = Step::AwaitingProposal;
            assert(before.compares(global@, Event::Started, false));
            return Action::Wait;
        }
        assert(before.compares(global@, Event::Started, true));
        match global.valid_value() {
            Some(value) => {
                let target_hash = copy_of(value);
                proof {
                    lemma_copied(*value);
                    lemma_copied_again(*value, *value, target_hash);
                }
                self.step = Step::SendingProposal;
                Action::Send(
                    Message::Proposal(
                        Proposal {
                            target_hash,
                            target_height: self.height + N::one(),
                            valid_round: global.valid_round(),
                            round: self.round,
                        },
                    ),
                )
            },
            None => {
                self.step = Step::Proposing;
                let tip = global.decided(&self.height).unwrap();
                let parent = copy_of(tip);
                proof {
                    lemma_copied(*tip);
                    lemma_copied_again(*tip, *tip, parent);
                }
                Action::Propose { round: self.round, parent }
            },
        }
    }

    /// Proposes a block that the environment gave.
    fn propose(&mut self, target_height: N, target_hash: H) -> (action: Action<N, H, S, I>)
        ensures
            final(self)@ == old(self)@.at(Step::SendingProposal),
            action@ == ActionView::<N, H, S, I>::Send(
                Message::Proposal(
                    Proposal {
                        target_hash,
                        target_height,
                        valid_round: None,
                        round: old(self)@.round,
                    },
                ),
            ),
    {
        self.step = Step::SendingProposal;
        Action::Send(
            Message::Proposal(
                Proposal { target_hash, target_height, valid_round: None, round: self.round },
            ),
        )
    }

    /// Prevotes once the proposal has come in or the wait has expired.
    fn poll_proposal(
        &mut self,
        global: &GlobalState<N, H, I>,
        expired: bool,
    ) -> (action: Action<N, H, S, I>)
        requires
            old(self)@.step == Step::AwaitingProposal,
        ensures
            old(self)@.copies_exactly(global@, Event::Polled { expired }) ==> (Transition {
                round: final(self)@,
                global: global@,
                action: action@,
            }) == old(self)@.on_proposal(global@, expired),
            exists|equal: bool| #[trigger]
                old(self)@.compares(global@, Event::Polled { expired }, equal) && old(
                    self,
                )@.on_proposal_as(global@, expired, equal).copied_to(
                    Transition { round: final(self)@, global: global@, action: action@ },
                ),
    {
        proof {
            lemma_state_copied(global@);
        }
        let prevote = match self.round_state.proposal() {
            Some(proposal) => {
                let prevote = global.prevote_on(proposal, self.round);
                proof {
                    lemma_copied(proposal.target_hash);
                    if prevote.target_hash is Some {
                        lemma_copied_again(
                            proposal.target_hash,
                            proposal.target_hash,
                            prevote.target_hash->0,
                        );
                    }
                    let equal = choose|equal: bool| #[trigger]
                        global@.lock_compared(*proposal, equal) && (prevote.target_hash is Some
                            <==> global@.endorses_as(*proposal, self.round, equal));
                    assert(self@.compares(global@, Event::Polled { expired }, equal));
                }
                prevote
            },
            None => {
                assert(self@.compares(global@, Event::Polled { expired }, true));
                if !expired {
                    return Action::Wait;
                }
                global.prevote_on_none()
            },
        };
        self.step = Step::SendingPrevote;
        Action::Send(Message::Prevote(prevote))
    }

    /// Precommits once a quorum of prevotes has come in or the wait has
    /// expired.
    fn poll_prevotes(
        &mut self,
        global: &mut GlobalState<N, H, I>,
        expired: bool,
    ) -> (action: Action<N, H, S, I>)
        requires
            old(self)@.step == Step::AwaitingPrevotes,
            old(self)@.has_prevote_quorum(old(global)@) ==> old(self)@.state.prevotes.len() > 0,
        ensures
            old(self)@.copies_exactly(old(global)@, Event::Polled { expired }) ==> (Transition {
                round: final(self)@,
                global: final(global)@,
                action: action@,
            }) == old(self)@.on_prevotes(old(global)@, expired),
            old(self)@.on_prevotes(old(global)@, expired).copied_to(
                Transition { round: final(self)@, global: final(global)@, action: action@ },
            ),
            final(global)@.decision == old(global)@.decision,
            !old(self)@.keeps_copies(old(global)@, Event::Polled { expired }) ==> final(global)@
                == old(self)@.on_prevotes(old(global)@, expired).global,
    {
        proof {
            lemma_state_copied(global@);
        }
        let precommit = if self.round_state.prevotes().len() >= global.voters().threshold() {
            let prevotes = self.round_state.prevotes().clone();
            proof {
                if clones_exactly::<H>() {
                    lemma_prevotes_clone_exactly::<N, H>();
                    assert(prevotes@ =~= old(self)@.state.prevotes);
                }
            }
            let ghost held = prevotes@;
            let prevote = self.valid_prevotes(prevotes);
            global.lock(&prevote.target_hash);
            proof {
                let first = old(self)@.state.prevotes.first();
                lemma_prevote_copied(first, held.first());
                lemma_prevote_copied(held.first(), prevote);
                lemma_option_copied_again(
                    first.target_hash,
                    held.first().target_hash,
                    prevote.target_hash,
                );
                lemma_option_copied_again(
                    first.target_hash,
                    prevote.target_hash,
                    global@.locked_value,
                );
                if first.target_hash is Some {
                    lemma_option_copied_again(
                        first.target_hash,
                        prevote.target_hash,
                        global@.valid_value,
                    );
                }
            }
            Precommit {
                target_hash: prevote.target_hash,
                target_height: prevote.target_height,
                round: self.round,
            }
        } else if expired {
            Precommit { target_hash: None, target_height: self.height, round: self.round }
        } else {
            return Action::Wait;
        };
        self.step = Step::SendingPrecommit;
        Action::Send(Message::Precommit(precommit))
    }

    /// Finishes once a quorum of precommits has come in or the wait has
    /// expired.
    fn poll_precommits(
        &mut self,
        global: &mut GlobalState<N, H, I>,
        expired: bool,
    ) -> (action: Action<N, H, S, I>)
        requires
            old(self)@.step == Step::AwaitingPrecommits,
            old(self)@.accepts(old(global)@, Event::Polled { expired }),
        ensures
            old(self)@.copies_exactly(old(global)@, Event::Polled { expired }) ==> (Transition {
                round: final(self)@,
                global: final(global)@,
                action: action@,
            }) == old(self)@.on_precommits(old(global)@, expired),
            old(self)@.on_precommits(old(global)@, expired).copied_to(
                Transition { round: final(self)@, global: final(global)@, action: action@ },
            ),
            !old(self)@.keeps_copies(old(global)@, Event::Polled { expired }) ==> final(global)@
                == old(self)@.on_precommits(old(global)@, expired).global,
            forall|n: N| #[trigger]
                old(global)@.decision.contains_key(n) && !(action@ matches ActionView::Finish(
                    Ok(commit),
                ) && commit.target_number == n) ==> final(global)@.decision[n] == old(
                    global,
                )@.decision[n],
    {
        proof {
            lemma_state_copied(global@);
        }
        if self.round_state.precommits().len() >= global.voters().threshold() {
            let commits = self.round_state.precommits().clone();
            proof {
                if clones_exactly::<H>() && clones_exactly::<S>() && clones_exactly::<I>() {
                    lemma_commits_clone_exactly::<N, H, S, I>();
                    assert(commits@ =~= old(self)@.state.precommits);
                }
            }
            let more_commits = commits.clone();
            let ghost more = more_commits@;
            let commit = self.valid_precommits(more_commits);
            proof {
                let received = old(self)@.state.precommits;
                assert forall|i: int| 0 <= i < received.len() implies (
                #[trigger] received[i]).copied_to(commits@[i]) by {
                    lemma_commit_copied(received[i], commits@[i]);
                }
                lemma_precommit_copied_again(
                    received.first().commit,
                    commits@.first().commit,
                    more.first().commit,
                );
                lemma_precommit_copied_again(received.first().commit, more.first().commit, commit);
            }
            if let Some(hash) = commit.target_hash {
                let decided = copy_of(&hash);
                proof {
                    let first = old(self)@.state.precommits.first().commit;
                    lemma_copied_again(first.target_hash->0, hash, decided);
                }
                global.finalize(commit.target_height, decided);
                self.step = Step::Finished;
                return Action::Finish(
                    Ok(
                        FinalizedCommit {
                            commits,
                            target_hash: hash,
                            target_number: commit.target_height,
                        },
                    ),
                );
            }
        } else if !expired {
            return Action::Wait;
        }
        let prevotes = self.round_state.prevotes().clone();
        proof {
            let received = old(self)@.state.prevotes;
            assert forall|i: int| 0 <= i < received.len() implies (
            #[trigger] received[i]).copied_to(prevotes@[i]) by {
                lemma_prevote_copied(received[i], prevotes@[i]);
            }
            if clones_exactly::<H>() {
                lemma_prevotes_clone_exactly::<N, H>();
                assert(prevotes@ =~= old(self)@.state.prevotes);
            }
        }
        self.step = Step::Finished;
        Action::Finish(Err(prevotes))
    }
}

} // verus!
