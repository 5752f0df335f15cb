//! What a voter has received in one round.

use crate::global::GlobalState;
use crate::messages::{Message, Prevote, Proposal, SignedCommit, SignedMessage};
use crate::number::BlockNumberOps;
use crate::value::{compared, compares_exactly, equals};
use vstd::prelude::*;

verus! {

/// What a voter has received in one round.
#[derive(Debug)]
pub struct RoundState<N, H, S, I> {
    proposer: I,
    proposal: Option<Proposal<N, H>>,
    prevotes: Vec<Prevote<N, H>>,
    precommits: Vec<SignedCommit<N, H, S, I>>,
}

/// What a [`RoundState`] holds.
#[verifier::ext_equal]
pub struct RoundStateView<N, H, S, I> {
    /// The voter whose turn it is to propose.
    pub proposer: I,
    /// The last proposal that came from the proposer.
    pub proposal: Option<Proposal<N, H>>,
    /// The prevotes, in the order in which they came.
    pub prevotes: Seq<Prevote<N, H>>,
    /// The precommits, in the order in which they came.
    pub precommits: Seq<SignedCommit<N, H, S, I>>,
}

impl<N, H, S, I> RoundStateView<N, H, S, I> {
    /// The state of a round in which nothing has come yet.
    pub open spec fn empty(proposer: I) -> Self {
        RoundStateView {
            proposer,
            proposal: None,
            prevotes: Seq::empty(),
            precommits: Seq::empty(),
        }
    }

    /// The state after a message came. A proposal counts only if it comes
    /// from the proposer; votes are kept whoever sends them.
    pub open spec fn received(self, signed_msg: SignedMessage<N, H, S, I>) -> Self {
        self.received_as(signed_msg, self.proposer == signed_msg.id)
    }

    /// The state after a message came from a voter that is taken for the
    /// proposer or is not.
    pub open spec fn received_as(
        self,
        signed_msg: SignedMessage<N, H, S, I>,
        from_proposer: bool,
    ) -> Self {
        match signed_msg.message {
            Message::Proposal(proposal) => if from_proposer {
                RoundStateView { proposal: Some(proposal), ..self }
            } else {
                self
            },
            Message::Prevote(prevote) => RoundStateView {
                prevotes: self.prevotes.push(prevote),
                ..self
            },
            Message::Precommit(precommit) => RoundStateView {
                precommits: self.precommits.push(
                    SignedCommit {
                        commit: precommit,
                        signature: signed_msg.signature,
                        id: signed_msg.id,
                    },
                ),
                ..self
            },
        }
    }
}

impl<N, H, S, I> View for RoundState<N, H, S, I> {
    type V = RoundStateView<N, H, S, I>;

    closed spec fn view(&self) -> RoundStateView<N, H, S, I> {
        RoundStateView {
            proposer: self.proposer,
            proposal: self.proposal,
            prevotes: self.prevotes@,
            precommits: self.precommits@,
        }
    }
}

impl<N: BlockNumberOps, H, S, I: PartialEq> RoundState<N, H, S, I> {
    /// The state of a round in which nothing has come yet.
    pub fn new(proposer: I) -> (r: Self)
        ensures
            r@ == RoundStateView::<N, H, S, I>::empty(proposer),
    {
        RoundState { proposer, proposal: None, prevotes: Vec::new(), precommits: Vec::new() }
    }

    /// Whether it is the voter's own turn to propose.
    pub fn is_proposer(&self, global: &GlobalState<N, H, I>) -> (r: bool)
        ensures
            compared(self@.proposer, global@.local_id, r),
            compares_exactly::<I>() ==> r == (self@.proposer == global@.local_id),
    {
        equals(&self.proposer, global.local_id())
    }

    /// Takes in a message.
    pub fn process_incoming(&mut self, signed_msg: SignedMessage<N, H, S, I>)
        ensures
            compares_exactly::<I>() || !(signed_msg.message is Proposal) ==> final(self)@
                == old(self)@.received(signed_msg),
            signed_msg.message is Proposal ==> exists|from_proposer: bool| #[trigger]
                compared(old(self)@.proposer, signed_msg.id, from_proposer) && final(self)@ == old(
                    self,
                )@.received_as(signed_msg, from_proposer),
    {
        let SignedMessage { id, message: msg, signature } = signed_msg;
        match msg {
            Message::Proposal(proposal) => {
                if equals(&self.proposer, &id) {
                    self.proposal = Some(proposal);
                }
            },
            Message::Prevote(prevote) => {
                self.prevotes.push(prevote);
            },
            Message::Precommit(precommit) => {
                self.precommits.push(SignedCommit { commit: precommit, signature, id });
            },
        }
    }

    /// The voter whose turn it is to propose.
    pub fn proposer(&self) -> (r: &I)
        ensures
            *r == self@.proposer,
    {
        &self.proposer
    }

    /// The last proposal that came from the proposer.
    pub fn proposal(&self) -> (r: &Option<Proposal<N, H>>)
        ensures
            *r == self@.proposal,
    {
        &self.proposal
    }

    /// The prevotes, in the order in which they came.
    pub fn prevotes(&self) -> (r: &Vec<Prevote<N, H>>)
        ensures
            r@ == self@.prevotes,
    {
        &self.prevotes
    }

    /// The precommits, in the order in which they came.
    pub fn precommits(&self) -> (r: &Vec<SignedCommit<N, H, S, I>>)
        ensures
            r@ == self@.precommits,
    {
        &self.precommits
    }
}

} // verus!
