//! What holds of a voter across events, rounds and voters.

use crate::global::{CurrentState, GlobalView};
use crate::messages::{
    FinalizedCommitView, Message, Precommit, Prevote, Proposal, SignedCommit, SignedMessage,
};
use crate::number::{has_successor, lemma_successor, successor, BlockNumberOps};
use crate::round::{ActionView, Event, RoundView, Step};
use crate::round_state::RoundStateView;
use crate::voters::VoterSetView;
use vstd::prelude::*;

verus! {

/// What a round meets: a message that comes in, or an event that it answers.
pub enum Input<N, H, S, I> {
    Incoming(SignedMessage<N, H, S, I>),
    Event(Event<N, H>),
}

/// Where a sequence of inputs leads, and the actions that answered its events.
#[verifier::ext_equal]
#[verifier::reject_recursive_types(N)]
pub struct Run<N, H, S, I> {
    pub round: RoundView<N, H, S, I>,
    pub global: GlobalView<N, H, I>,
    pub actions: Seq<ActionView<N, H, S, I>>,
}

impl<N: BlockNumberOps, H, S, I> Run<N, H, S, I> {
    /// The run after one more input.
    pub open spec fn then_input(self, input: Input<N, H, S, I>) -> Self {
        match input {
            Input::Incoming(signed_msg) => Run { round: self.round.received(signed_msg), ..self },
            Input::Event(event) => {
                let next = self.round.next(self.global, event);
                Run {
                    round: next.round,
                    global: next.global,
                    actions: self.actions.push(next.action),
                }
            },
        }
    }

    /// The run of a round through `inputs`.
    pub open spec fn through(
        round: RoundView<N, H, S, I>,
        global: GlobalView<N, H, I>,
        inputs: Seq<Input<N, H, S, I>>,
    ) -> Self
        decreases inputs.len(),
    {
        if inputs.len() == 0 {
            Run { round, global, actions: Seq::empty() }
        } else {
            Self::through(round, global, inputs.drop_last()).then_input(inputs.last())
        }
    }
}

/// How far a step is from the start of the round.
pub open spec fn rank(step: Step) -> nat {
    match step {
        Step::Pausing => 0,
        Step::Proposing => 1,
        Step::SendingProposal => 2,
        Step::AwaitingProposal => 3,
        Step::SendingPrevote => 4,
        Step::AwaitingPrevotes => 5,
        Step::SendingPrecommit => 6,
        Step::AwaitingPrecommits => 7,
        Step::Finished => 8,
    }
}

/// What an action may do that a round does at most once.
pub enum Deed {
    Ask,
    Propose,
    Prevote,
    Precommit,
    Finish,
}

/// The action does the deed.
pub open spec fn does<N, H, S, I>(action: ActionView<N, H, S, I>, deed: Deed) -> bool {
    match deed {
        Deed::Ask => action is Propose,
        Deed::Propose => action matches ActionView::Send(Message::Proposal(_)),
        Deed::Prevote => action matches ActionView::Send(Message::Prevote(_)),
        Deed::Precommit => action matches ActionView::Send(Message::Precommit(_)),
        Deed::Finish => action is Finish,
    }
}

/// How many of the actions do the deed.
pub open spec fn times<N, H, S, I>(actions: Seq<ActionView<N, H, S, I>>, deed: Deed) -> nat
    decreases actions.len(),
{
    if actions.len() == 0 {
        0
    } else if does(actions.last(), deed) {
        times(actions.drop_last(), deed) + 1
    } else {
        times(actions.drop_last(), deed)
    }
}

/// Whatever comes in, and whatever happens, a voter asks for a block at most
/// once in a round, sends at most one proposal, one prevote and one precommit
/// and ends the round at most once. It never asks for a block once it has
/// started, and so never after it has asked for one or has proposed one. It has sent its prevote exactly when it is past the wait for the
/// proposal, its precommit exactly when it is past the wait for prevotes, and
/// has ended the round exactly when the round is finished.
pub proof fn law_votes_once<N: BlockNumberOps, H, S, I>(
    round: RoundView<N, H, S, I>,
    global: GlobalView<N, H, I>,
    inputs: Seq<Input<N, H, S, I>>,
)
    requires
        round.step == Step::Pausing,
    ensures
        ({
            let run = Run::through(round, global, inputs);
            let at = rank(run.round.step);
            &&& times(run.actions, Deed::Ask) <= 1
            &&& at < rank(Step::Proposing) ==> times(run.actions, Deed::Ask) == 0
            &&& at >= rank(Step::Proposing) ==> forall|event: Event<N, H>|
                !does(#[trigger] run.round.next(run.global, event).action, Deed::Ask)
            &&& times(run.actions, Deed::Propose) <= 1
            &&& at < rank(Step::SendingProposal) ==> times(run.actions, Deed::Propose) == 0
            &&& times(run.actions, Deed::Prevote) <= 1
            &&& times(run.actions, Deed::Prevote) == 1 <==> at >= rank(Step::SendingPrevote)
            &&& times(run.actions, Deed::Precommit) <= 1
            &&& times(run.actions, Deed::Precommit) == 1 <==> at >= rank(Step::SendingPrecommit)
            &&& times(run.actions, Deed::Finish) <= 1
            &&& times(run.actions, Deed::Finish) == 1 <==> run.round.step == Step::Finished
        }),
    decreases inputs.len(),
{
    if inputs.len() > 0 {
        law_votes_once(round, global, inputs.drop_last());
        let before = Run::through(round, global, inputs.drop_last());
        if let Input::Event(event) = inputs.last() {
            let action = before.round.next(before.global, event).action;
            assert(before.actions.push(action).drop_last() =~= before.actions);
        }
    }
}

/// The event is the one that a round at `step` waits for, a wait that has
/// expired included.
pub open spec fn moves_on<N, H>(step: Step, event: Event<N, H>) -> bool {
    match step {
        Step::Pausing => event is Started,
        Step::Proposing => event is Proposed,
        Step::SendingProposal | Step::SendingPrevote | Step::SendingPrecommit => event is Sent,
        Step::AwaitingProposal | Step::AwaitingPrevotes | Step::AwaitingPrecommits => event
            == Event::<N, H>::Polled { expired: true },
        Step::Finished => false,
    }
}

/// How many of the inputs are, when they come, what the round waits for.
pub open spec fn moves<N: BlockNumberOps, H, S, I>(
    round: RoundView<N, H, S, I>,
    global: GlobalView<N, H, I>,
    inputs: Seq<Input<N, H, S, I>>,
) -> nat
    decreases inputs.len(),
{
    if inputs.len() == 0 {
        0
    } else {
        let step = Run::through(round, global, inputs.drop_last()).round.step;
        let earlier = moves(round, global, inputs.drop_last());
        if inputs.last() matches Input::Event(event) && moves_on(step, event) {
            earlier + 1
        } else {
            earlier
        }
    }
}

/// A round never goes back and never waits for ever: each event that it waits
/// for, a wait that has expired included, brings it at least one step further,
/// so that eight of them finish it.
pub proof fn law_round_ends<N: BlockNumberOps, H, S, I>(
    round: RoundView<N, H, S, I>,
    global: GlobalView<N, H, I>,
    inputs: Seq<Input<N, H, S, I>>,
)
    ensures
        rank(Run::through(round, global, inputs).round.step) >= rank(round.step) + moves(
            round,
            global,
            inputs,
        ),
        moves(round, global, inputs) >= 8 - rank(round.step) ==> Run::through(
            round,
            global,
            inputs,
        ).round.step == Step::Finished,
    decreases inputs.len(),
{
    if inputs.len() > 0 {
        law_round_ends(round, global, inputs.drop_last());
    }
}

/// The prevotes among the inputs, in the order in which they come.
pub open spec fn incoming_prevotes<N, H, S, I>(inputs: Seq<Input<N, H, S, I>>) -> Seq<
    Prevote<N, H>,
>
    decreases inputs.len(),
{
    if inputs.len() == 0 {
        Seq::empty()
    } else {
        let earlier = incoming_prevotes(inputs.drop_last());
        match inputs.last() {
            Input::Incoming(
                SignedMessage { message: Message::Prevote(prevote), .. },
            ) => earlier.push(prevote),
            _ => earlier,
        }
    }
}

/// The precommits among the inputs, in the order in which they come.
pub open spec fn incoming_precommits<N, H, S, I>(inputs: Seq<Input<N, H, S, I>>) -> Seq<
    SignedCommit<N, H, S, I>,
>
    decreases inputs.len(),
{
    if inputs.len() == 0 {
        Seq::empty()
    } else {
        let earlier = incoming_precommits(inputs.drop_last());
        match inputs.last() {
            Input::Incoming(
                SignedMessage { id, message: Message::Precommit(commit), signature },
            ) => earlier.push(SignedCommit { commit, signature, id }),
            _ => earlier,
        }
    }
}

/// The last proposal among the inputs that comes from `proposer`.
pub open spec fn incoming_proposal<N, H, S, I>(
    proposer: I,
    inputs: Seq<Input<N, H, S, I>>,
) -> Option<Proposal<N, H>>
    decreases inputs.len(),
{
    if inputs.len() == 0 {
        None
    } else {
        match inputs.last() {
            Input::Incoming(
                SignedMessage { id, message: Message::Proposal(proposal), .. },
            ) if id == proposer => Some(proposal),
            _ => incoming_proposal(proposer, inputs.drop_last()),
        }
    }
}

/// No vote that comes in is lost, altered or reordered, whoever sent it, and
/// the proposal that counts is the last one from the proposer: what a round
/// has received is what came in.
pub proof fn law_round_keeps_what_comes_in<N: BlockNumberOps, H, S, I>(
    round: RoundView<N, H, S, I>,
    global: GlobalView<N, H, I>,
    inputs: Seq<Input<N, H, S, I>>,
)
    requires
        round.state == RoundStateView::<N, H, S, I>::empty(round.state.proposer),
    ensures
        Run::through(round, global, inputs).round.state == (RoundStateView {
            proposer: round.state.proposer,
            proposal: incoming_proposal(round.state.proposer, inputs),
            prevotes: incoming_prevotes(inputs),
            precommits: incoming_precommits(inputs),
        }),
    decreases inputs.len(),
{
    if inputs.len() > 0 {
        law_round_keeps_what_comes_in(round, global, inputs.drop_last());
    }
}

/// A proposal from anyone but the proposer changes nothing.
pub proof fn law_only_the_proposer_proposes<N, H, S, I>(
    round: RoundView<N, H, S, I>,
    signed_msg: SignedMessage<N, H, S, I>,
)
    requires
        signed_msg.message is Proposal,
        signed_msg.id != round.state.proposer,
    ensures
        round.received(signed_msg) == round,
{
}

/// A voter prevotes for a block only if the proposer proposed it in the round,
/// and then only if the proposal names a past round whose log holds more
/// prevotes than a quorum takes, or names none and the voter is not locked on
/// anything else.
pub proof fn law_prevote_is_justified<N: BlockNumberOps, H, S, I>(
    round: RoundView<N, H, S, I>,
    global: GlobalView<N, H, I>,
    inputs: Seq<Input<N, H, S, I>>,
    event: Event<N, H>,
)
    requires
        round.state == RoundStateView::<N, H, S, I>::empty(round.state.proposer),
    ensures
        ({
            let run = Run::through(round, global, inputs);
            let action = run.round.next(run.global, event).action;
            action matches ActionView::Send(Message::Prevote(prevote)) ==> prevote.target_hash
                matches Some(hash) ==> {
                &&& incoming_proposal(round.state.proposer, inputs) matches Some(proposal)
                &&& prevote == Prevote {
                    target_hash: Some(proposal.target_hash),
                    target_height: proposal.target_height,
                    round: proposal.round,
                }
                &&& match proposal.valid_round {
                    Some(valid_round) => valid_round < run.round.round && run.global.logged(
                        valid_round,
                    ) is Some,
                    None => run.global.locked_round is None || run.global.locked_value == Some(
                        hash,
                    ),
                }
            }
        }),
{
    law_round_keeps_what_comes_in(round, global, inputs);
}

/// A voter precommits to a block only if a quorum of prevotes came in, the
/// first of them for that block. It is then locked on the block in its round,
/// and would propose it again.
pub proof fn law_precommit_is_justified<N: BlockNumberOps, H, S, I>(
    round: RoundView<N, H, S, I>,
    global: GlobalView<N, H, I>,
    inputs: Seq<Input<N, H, S, I>>,
    event: Event<N, H>,
)
    requires
        round.state == RoundStateView::<N, H, S, I>::empty(round.state.proposer),
    ensures
        ({
            let run = Run::through(round, global, inputs);
            let next = run.round.next(run.global, event);
            let prevotes = incoming_prevotes(inputs);
            next.action matches ActionView::Send(Message::Precommit(precommit)) ==> precommit.target_hash
                is Some ==> {
                &&& prevotes.len() >= global.voters.threshold
                &&& precommit == Precommit {
                    target_hash: prevotes.first().target_hash,
                    target_height: prevotes.first().target_height,
                    round: run.round.round,
                }
                &&& next.global.locked_value == precommit.target_hash
                &&& next.global.locked_round == Some(global.round)
                &&& next.global.valid_value == precommit.target_hash
                &&& next.global.valid_round == Some(global.round)
                &&& next.global.current_state == CurrentState::Precommit
            }
        }),
{
    law_round_keeps_what_comes_in(round, global, inputs);
    law_round_keeps_identity(round, global, inputs);
}

/// A round finalizes a block only if a quorum of precommits came in, the first
/// of them for that block. The block comes with those precommits, is recorded
/// as decided, moves the voter one height up and releases what it held.
pub proof fn law_finalization_is_justified<N: BlockNumberOps, H, S, I>(
    round: RoundView<N, H, S, I>,
    global: GlobalView<N, H, I>,
    inputs: Seq<Input<N, H, S, I>>,
    event: Event<N, H>,
)
    requires
        round.state == RoundStateView::<N, H, S, I>::empty(round.state.proposer),
    ensures
        ({
            let run = Run::through(round, global, inputs);
            let next = run.round.next(run.global, event);
            next.action matches ActionView::Finish(Ok(commit)) ==> {
                &&& commit.commits == incoming_precommits(inputs)
                &&& commit.commits.len() >= global.voters.threshold
                &&& Some(commit.target_hash) == commit.commits.first().commit.target_hash
                &&& commit.target_number == commit.commits.first().commit.target_height
                &&& next.global.decision == run.global.decision.insert(
                    commit.target_number,
                    commit.target_hash,
                )
                &&& next.global.height == successor(run.global.height)
                &&& holds_nothing(next.global)
            }
        }),
{
    law_round_keeps_what_comes_in(round, global, inputs);
    law_round_keeps_identity(round, global, inputs);
}

/// A round that ends without a block hands over all the prevotes that came in.
pub proof fn law_failed_round_hands_over_prevotes<N: BlockNumberOps, H, S, I>(
    round: RoundView<N, H, S, I>,
    global: GlobalView<N, H, I>,
    inputs: Seq<Input<N, H, S, I>>,
    event: Event<N, H>,
)
    requires
        round.state == RoundStateView::<N, H, S, I>::empty(round.state.proposer),
    ensures
        ({
            let run = Run::through(round, global, inputs);
            let next = run.round.next(run.global, event);
            next.action matches ActionView::Finish(Err(prevotes)) ==> {
                &&& prevotes == incoming_prevotes(inputs)
                &&& next.global == run.global
            }
        }),
{
    law_round_keeps_what_comes_in(round, global, inputs);
}

/// No round changes who the voter is, who votes with it, its round number or
/// its log.
pub proof fn law_round_keeps_identity<N: BlockNumberOps, H, S, I>(
    round: RoundView<N, H, S, I>,
    global: GlobalView<N, H, I>,
    inputs: Seq<Input<N, H, S, I>>,
)
    ensures
        ({
            let after = Run::through(round, global, inputs).global;
            &&& after.local_id == global.local_id
            &&& after.voters == global.voters
            &&& after.round == global.round
            &&& after.message_log == global.message_log
        }),
    decreases inputs.len(),
{
    if inputs.len() > 0 {
        law_round_keeps_identity(round, global, inputs.drop_last());
    }
}

/// A round that has started is one for the height and with the number that the
/// voter had before it; until then the voter is as it was.
pub proof fn law_round_has_the_voters_height<N: BlockNumberOps, H, S, I>(
    round: RoundView<N, H, S, I>,
    global: GlobalView<N, H, I>,
    inputs: Seq<Input<N, H, S, I>>,
)
    requires
        round.step == Step::Pausing,
    ensures
        ({
            let run = Run::through(round, global, inputs);
            if run.round.step == Step::Pausing {
                run.global == global
            } else {
                run.round.height == global.height && run.round.round == global.round
            }
        }),
    decreases inputs.len(),
{
    if inputs.len() > 0 {
        law_round_has_the_voters_height(round, global, inputs.drop_last());
    }
}

/// The blocks that the actions finalize, in order.
pub open spec fn finalized_by<N, H, S, I>(actions: Seq<ActionView<N, H, S, I>>) -> Seq<(N, H)>
    decreases actions.len(),
{
    if actions.len() == 0 {
        Seq::empty()
    } else {
        let earlier = finalized_by(actions.drop_last());
        match actions.last() {
            ActionView::Finish(Ok(commit)) => earlier.push(
                (commit.target_number, commit.target_hash),
            ),
            _ => earlier,
        }
    }
}

/// A round finalizes at most one block. Without one, the height and the
/// decided blocks stay, and a locked voter stays locked; with one, the block is
/// added to the decided ones, the height is the next one and the voter holds
/// nothing any more.
pub proof fn law_round_decides_once<N: BlockNumberOps, H, S, I>(
    round: RoundView<N, H, S, I>,
    global: GlobalView<N, H, I>,
    inputs: Seq<Input<N, H, S, I>>,
)
    requires
        round.step == Step::Pausing,
    ensures
        ({
            let run = Run::through(round, global, inputs);
            let blocks = finalized_by(run.actions);
            &&& blocks.len() <= 1
            &&& blocks.len() == 0 ==> {
                &&& run.global.height == global.height
                &&& run.global.decision == global.decision
                &&& global.locked_round is Some ==> run.global.locked_round is Some
            }
            &&& blocks.len() == 1 ==> {
                &&& run.round.step == Step::Finished
                &&& run.global.height == successor(global.height)
                &&& run.global.decision == global.decision.insert(blocks[0].0, blocks[0].1)
                &&& holds_nothing(run.global)
            }
        }),
    decreases inputs.len(),
{
    if inputs.len() > 0 {
        law_round_decides_once(round, global, inputs.drop_last());
        let before = Run::through(round, global, inputs.drop_last());
        if let Input::Event(event) = inputs.last() {
            let action = before.round.next(before.global, event).action;
            assert(before.actions.push(action).drop_last() =~= before.actions);
        }
    }
}

/// The voter is not locked and has no block to propose again.
pub open spec fn holds_nothing<N, H, I>(global: GlobalView<N, H, I>) -> bool {
    &&& global.locked_value is None
    &&& global.locked_round is None
    &&& global.valid_value is None
    &&& global.valid_round is None
}

/// Both are locked alike and would propose the same block again.
pub open spec fn holds_alike<N, H, I>(one: GlobalView<N, H, I>, other: GlobalView<N, H, I>) -> bool {
    &&& one.locked_value == other.locked_value
    &&& one.locked_round == other.locked_round
    &&& one.valid_value == other.valid_value
    &&& one.valid_round == other.valid_round
}

/// What a voter holds during and after a round is what it held before, or what
/// the first prevote of a quorum that came in stands for, or nothing, once it
/// has finalized a block. Up to its precommit it is what it held before.
///
/// A quorum takes at least one vote.
pub proof fn law_held_value_had_a_quorum<N: BlockNumberOps, H, S, I>(
    round: RoundView<N, H, S, I>,
    global: GlobalView<N, H, I>,
    inputs: Seq<Input<N, H, S, I>>,
)
    requires
        round.step == Step::Pausing,
        round.state == RoundStateView::<N, H, S, I>::empty(round.state.proposer),
        global.voters.threshold > 0,
    ensures
        ({
            let run = Run::through(round, global, inputs);
            let prevotes = incoming_prevotes(inputs);
            &&& {
                ||| holds_alike(run.global, global)
                ||| prevotes.len() >= global.voters.threshold && holds_alike(
                    run.global,
                    global.locked_on(prevotes.first().target_hash),
                )
                ||| run.round.step == Step::Finished && holds_nothing(run.global)
            }
            &&& rank(run.round.step) < rank(Step::SendingPrecommit) ==> holds_alike(
                run.global,
                global,
            )
        }),
    decreases inputs.len(),
{
    if inputs.len() > 0 {
        law_held_value_had_a_quorum(round, global, inputs.drop_last());
        law_round_keeps_what_comes_in(round, global, inputs.drop_last());
        law_round_keeps_identity(round, global, inputs.drop_last());
    }
}

/// The precommit that the actions send, if they send one.
pub open spec fn precommit_sent<N, H, S, I>(actions: Seq<ActionView<N, H, S, I>>) -> Option<
    Precommit<N, H>,
>
    decreases actions.len(),
{
    if actions.len() == 0 {
        None
    } else if let ActionView::Send(Message::Precommit(precommit)) = actions.last() {
        Some(precommit)
    } else {
        precommit_sent(actions.drop_last())
    }
}

/// A voter that has precommitted to a block stays locked on it, in its round,
/// and would propose it again, unless the round finalizes a block.
pub proof fn law_precommit_leaves_its_lock<N: BlockNumberOps, H, S, I>(
    round: RoundView<N, H, S, I>,
    global: GlobalView<N, H, I>,
    inputs: Seq<Input<N, H, S, I>>,
)
    requires
        round.step == Step::Pausing,
    ensures
        ({
            let run = Run::through(round, global, inputs);
            precommit_sent(run.actions) matches Some(precommit) ==> precommit.target_hash is Some
                && finalized_by(run.actions).len() == 0 ==> {
                &&& run.global.locked_value == precommit.target_hash
                &&& run.global.locked_round == Some(global.round)
                &&& run.global.valid_value == precommit.target_hash
                &&& run.global.valid_round == Some(global.round)
            }
        }),
    decreases inputs.len(),
{
    if inputs.len() > 0 {
        law_precommit_leaves_its_lock(round, global, inputs.drop_last());
        law_votes_once(round, global, inputs.drop_last());
        law_round_keeps_identity(round, global, inputs.drop_last());
        let before = Run::through(round, global, inputs.drop_last());
        lemma_no_precommit_without_sending(before.actions);
        if let Input::Event(event) = inputs.last() {
            let action = before.round.next(before.global, event).action;
            assert(before.actions.push(action).drop_last() =~= before.actions);
        }
    }
}

/// Actions that never send a precommit have sent none.
proof fn lemma_no_precommit_without_sending<N, H, S, I>(actions: Seq<ActionView<N, H, S, I>>)
    ensures
        precommit_sent(actions) is None <==> times(actions, Deed::Precommit) == 0,
    decreases actions.len(),
{
    if actions.len() > 0 {
        lemma_no_precommit_without_sending(actions.drop_last());
    }
}

/// A block that the voter is locked on is also the one that it would propose
/// again, from the same round, and a block to propose again has its round.
pub open spec fn lock_is_consistent<N, H, I>(global: GlobalView<N, H, I>) -> bool {
    &&& global.valid_value is Some <==> global.valid_round is Some
    &&& global.locked_value is Some ==> {
        &&& global.locked_round is Some
        &&& global.valid_value == global.locked_value
        &&& global.valid_round == global.locked_round
    }
}

/// What a voter holds stays consistent through every round.
pub proof fn law_lock_is_consistent<N: BlockNumberOps, H, S, I>(
    round: RoundView<N, H, S, I>,
    global: GlobalView<N, H, I>,
    inputs: Seq<Input<N, H, S, I>>,
)
    requires
        lock_is_consistent(global),
    ensures
        lock_is_consistent(Run::through(round, global, inputs).global),
    decreases inputs.len(),
{
    if inputs.len() > 0 {
        law_lock_is_consistent(round, global, inputs.drop_last());
    }
}

/// The voter knows the block at its own height, on which the next one builds.
pub open spec fn knows_tip<N, H, I>(global: GlobalView<N, H, I>) -> bool {
    global.decision.contains_key(global.height)
}

/// A voter starts with the block at its own height and holds nothing. Logging a
/// round and taking another block as the last finalized one leave what it
/// holds as it is, and leave it with the block at its own height.
pub proof fn law_voter_starts_with_its_tip<N, H, I>(
    local_id: I,
    voters: VoterSetView<I>,
    target: (N, H),
    global: GlobalView<N, H, I>,
    round: u64,
    prevotes: Seq<Prevote<N, H>>,
)
    ensures
        knows_tip(GlobalView::starting_from(local_id, voters, target)),
        holds_nothing(GlobalView::starting_from(local_id, voters, target)),
        lock_is_consistent(GlobalView::starting_from(local_id, voters, target)),
        knows_tip(global.retargeted(target)),
        holds_alike(global.retargeted(target), global),
        knows_tip(global) ==> knows_tip(global.appended(round, prevotes)),
        holds_alike(global.appended(round, prevotes), global),
{
}

/// A voter keeps knowing the block at its own height through every round that
/// finalizes nothing but a block for the next height.
pub proof fn law_tip_is_known<N: BlockNumberOps, H, S, I>(
    round: RoundView<N, H, S, I>,
    global: GlobalView<N, H, I>,
    inputs: Seq<Input<N, H, S, I>>,
)
    requires
        knows_tip(global),
        round.step == Step::Pausing,
        forall|i: int|
            0 <= i < finalized_by(Run::through(round, global, inputs).actions).len() ==> (
            #[trigger] finalized_by(Run::through(round, global, inputs).actions)[i]).0 == successor(
                global.height,
            ),
    ensures
        knows_tip(Run::through(round, global, inputs).global),
{
    law_round_decides_once(round, global, inputs);
}

/// A voter that knows the block at its own height can start a round, if there
/// is a next height for the block that it may have to propose again. As the
/// proposer it proposes that block again, with the round in which it had a
/// quorum; if it has none, it asks for one on top of the block that it knows.
pub proof fn law_voter_can_start<N: BlockNumberOps, H, S, I: PartialEq>(
    round: RoundView<N, H, S, I>,
    global: GlobalView<N, H, I>,
)
    requires
        knows_tip(global),
        global.valid_value is Some ==> has_successor(global.height),
        round.step == Step::Pausing,
    ensures
        round.accepts(global, Event::Started),
        ({
            let action = round.next(global, Event::Started).action;
            if round.state.proposer != global.local_id {
                action is Wait
            } else if let Some(hash) = global.valid_value {
                action == ActionView::<N, H, S, I>::Send(
                    Message::Proposal(
                        Proposal {
                            target_hash: hash,
                            target_height: successor(global.height),
                            valid_round: global.valid_round,
                            round: global.round,
                        },
                    ),
                )
            } else {
                action == ActionView::<N, H, S, I>::Propose {
                    round: global.round,
                    parent: global.decision[global.height],
                }
            }
        }),
{
}

/// Two voters that finalize a block in a round finalize the same one exactly
/// when the first precommit that came in to each names the same one.
pub proof fn law_agreement<N: BlockNumberOps, H, S, I>(
    round: RoundView<N, H, S, I>,
    global: GlobalView<N, H, I>,
    inputs: Seq<Input<N, H, S, I>>,
    event: Event<N, H>,
    commit: FinalizedCommitView<N, H, S, I>,
    other_round: RoundView<N, H, S, I>,
    other_global: GlobalView<N, H, I>,
    other_inputs: Seq<Input<N, H, S, I>>,
    other_event: Event<N, H>,
    other_commit: FinalizedCommitView<N, H, S, I>,
)
    requires
        round.state == RoundStateView::<N, H, S, I>::empty(round.state.proposer),
        other_round.state == RoundStateView::<N, H, S, I>::empty(other_round.state.proposer),
        ({
            let run = Run::through(round, global, inputs);
            run.round.next(run.global, event).action == ActionView::Finish(Ok(commit))
        }),
        ({
            let run = Run::through(other_round, other_global, other_inputs);
            run.round.next(run.global, other_event).action == ActionView::Finish(Ok(other_commit))
        }),
    ensures
        ({
            let first = incoming_precommits(inputs).first().commit;
            let other_first = incoming_precommits(other_inputs).first().commit;
            commit.target_hash == other_commit.target_hash && commit.target_number
                == other_commit.target_number <==> first.target_hash == other_first.target_hash
                && first.target_height == other_first.target_height
        }),
{
    law_finalization_is_justified(round, global, inputs, event);
    law_finalization_is_justified(other_round, other_global, other_inputs, other_event);
}

/// How the actions end the round, if they do.
pub open spec fn outcome<N, H, S, I>(actions: Seq<ActionView<N, H, S, I>>) -> Option<
    Result<FinalizedCommitView<N, H, S, I>, Seq<Prevote<N, H>>>,
>
    decreases actions.len(),
{
    if actions.len() == 0 {
        None
    } else if let ActionView::Finish(result) = actions.last() {
        Some(result)
    } else {
        outcome(actions.drop_last())
    }
}

/// The run of a voter's round through `inputs`.
pub open spec fn round_of<N: BlockNumberOps, H, S, I>(
    global: GlobalView<N, H, I>,
    inputs: Seq<Input<N, H, S, I>>,
) -> Run<N, H, S, I> {
    Run::through(RoundView::opened(global), global, inputs)
}

/// The voter's state after one round after another, each with its inputs: the
/// prevotes of a round that ended without a block are logged.
pub open spec fn after_rounds<N: BlockNumberOps, H, S, I>(
    global: GlobalView<N, H, I>,
    rounds: Seq<Seq<Input<N, H, S, I>>>,
) -> GlobalView<N, H, I>
    decreases rounds.len(),
{
    if rounds.len() == 0 {
        global
    } else {
        let before = after_rounds(global, rounds.drop_last());
        let run = round_of(before, rounds.last());
        match outcome(run.actions) {
            Some(Err(prevotes)) => run.global.appended(before.round, prevotes),
            _ => run.global,
        }
    }
}

/// The blocks finalized by one round after another, in order.
pub open spec fn chain_of<N: BlockNumberOps, H, S, I>(
    global: GlobalView<N, H, I>,
    rounds: Seq<Seq<Input<N, H, S, I>>>,
) -> Seq<(N, H)>
    decreases rounds.len(),
{
    if rounds.len() == 0 {
        Seq::empty()
    } else {
        let before = after_rounds(global, rounds.drop_last());
        chain_of(global, rounds.drop_last()) + finalized_by(
            round_of(before, rounds.last()).actions,
        )
    }
}

/// Each block that the rounds finalize is one for the next height, which
/// exists.
pub open spec fn in_order<N: BlockNumberOps, H, S, I>(
    global: GlobalView<N, H, I>,
    rounds: Seq<Seq<Input<N, H, S, I>>>,
) -> bool
    decreases rounds.len(),
{
    rounds.len() > 0 ==> {
        let before = after_rounds(global, rounds.drop_last());
        let blocks = finalized_by(round_of(before, rounds.last()).actions);
        &&& in_order(global, rounds.drop_last())
        &&& blocks.len() > 0 ==> has_successor(before.height)
        &&& forall|i: int|
            0 <= i < blocks.len() ==> (#[trigger] blocks[i]).0 == successor(before.height)
    }
}

/// Where each block that the rounds finalize is one for the next height, the
/// finalized blocks form a chain without gaps on top of the block that the
/// voter started from: they are recorded at one height after another, none is
/// ever replaced, and the voter stands at the last of them. What was decided
/// up to the start stays.
pub proof fn law_chain_has_no_gaps<N: BlockNumberOps, H, S, I>(
    global: GlobalView<N, H, I>,
    rounds: Seq<Seq<Input<N, H, S, I>>>,
)
    requires
        knows_tip(global),
        in_order(global, rounds),
    ensures
        ({
            let after = after_rounds(global, rounds);
            let chain = chain_of(global, rounds);
            &&& after.height.number() == global.height.number() + chain.len()
            &&& knows_tip(after)
            &&& forall|i: int|
                0 <= i < chain.len() ==> {
                    &&& (#[trigger] chain[i]).0.number() == global.height.number() + 1 + i
                    &&& after.decision.contains_key(chain[i].0)
                    &&& after.decision[chain[i].0] == chain[i].1
                }
            &&& forall|n: N|
                n.number() <= global.height.number() ==> {
                    &&& #[trigger] after.decision.contains_key(n)
                        == global.decision.contains_key(n)
                    &&& after.decision[n] == global.decision[n]
                }
        }),
    decreases rounds.len(),
{
    if rounds.len() > 0 {
        let before = after_rounds(global, rounds.drop_last());
        law_chain_has_no_gaps(global, rounds.drop_last());
        law_round_decides_once(RoundView::opened(before), before, rounds.last());
        let blocks = finalized_by(round_of(before, rounds.last()).actions);
        let chain = chain_of(global, rounds.drop_last());
        if blocks.len() > 0 {
            lemma_successor(before.height);
            assert(blocks[0].0 == successor(before.height));
            assert(chain_of(global, rounds) =~= chain.push(blocks[0]));
        } else {
            assert(chain_of(global, rounds) =~= chain);
        }
    }
}

/// Under the same condition a voter that knows the block at its own height can
/// start every round, as long as there is a next height for a block that it
/// may have to propose again.
pub proof fn law_every_round_can_start<N: BlockNumberOps, H, S, I: PartialEq>(
    global: GlobalView<N, H, I>,
    rounds: Seq<Seq<Input<N, H, S, I>>>,
)
    requires
        knows_tip(global),
        in_order(global, rounds),
        ({
            let after = after_rounds(global, rounds);
            after.valid_value is Some ==> has_successor(after.height)
        }),
    ensures
        ({
            let after = after_rounds(global, rounds);
            RoundView::<N, H, S, I>::opened(after).accepts(after, Event::Started)
        }),
{
    law_chain_has_no_gaps(global, rounds);
}

/// Round after round, a block that the voter is locked on or would propose
/// again is one that it held from the start, or one that the first prevote of
/// a quorum named in one of the rounds.
///
/// A quorum takes at least one vote.
pub proof fn law_held_value_was_named<N: BlockNumberOps, H, S, I>(
    global: GlobalView<N, H, I>,
    rounds: Seq<Seq<Input<N, H, S, I>>>,
    hash: H,
)
    requires
        global.voters.threshold > 0,
        ({
            let after = after_rounds(global, rounds);
            after.locked_value == Some(hash) || after.valid_value == Some(hash)
        }),
    ensures
        ({
            ||| global.locked_value == Some(hash)
            ||| global.valid_value == Some(hash)
            ||| exists|k: int|
                0 <= k < rounds.len() && named_by_quorum(global, #[trigger] rounds[k], hash)
        }),
    decreases rounds.len(),
{
    if rounds.len() > 0 {
        let earlier = rounds.drop_last();
        let before = after_rounds(global, earlier);
        law_rounds_keep_identity(global, earlier);
        law_held_value_had_a_quorum(RoundView::opened(before), before, rounds.last());
        if before.locked_value == Some(hash) || before.valid_value == Some(hash) {
            law_held_value_was_named(global, earlier, hash);
            if exists|k: int|
                0 <= k < earlier.len() && named_by_quorum(global, #[trigger] earlier[k], hash) {
                let k = choose|k: int|
                    0 <= k < earlier.len() && named_by_quorum(global, #[trigger] earlier[k], hash);
                assert(named_by_quorum(global, rounds[k], hash));
            }
        } else {
            assert(named_by_quorum(global, rounds[rounds.len() - 1], hash));
        }
    }
}

/// A quorum of prevotes came in whose first is for the block `hash`.
pub open spec fn named_by_quorum<N, H, S, I>(
    global: GlobalView<N, H, I>,
    inputs: Seq<Input<N, H, S, I>>,
    hash: H,
) -> bool {
    &&& incoming_prevotes(inputs).len() >= global.voters.threshold
    &&& incoming_prevotes(inputs).first().target_hash == Some(hash)
}

/// No number of rounds changes who the voter is, who votes with it or its
/// round number.
pub proof fn law_rounds_keep_identity<N: BlockNumberOps, H, S, I>(
    global: GlobalView<N, H, I>,
    rounds: Seq<Seq<Input<N, H, S, I>>>,
)
    ensures
        after_rounds(global, rounds).local_id == global.local_id,
        after_rounds(global, rounds).voters == global.voters,
        after_rounds(global, rounds).round == global.round,
    decreases rounds.len(),
{
    if rounds.len() > 0 {
        let before = after_rounds(global, rounds.drop_last());
        law_rounds_keep_identity(global, rounds.drop_last());
        law_round_keeps_identity(RoundView::opened(before), before, rounds.last());
    }
}

/// A locked voter stays locked through every round that finalizes nothing.
pub proof fn law_lock_lasts<N: BlockNumberOps, H, S, I>(
    global: GlobalView<N, H, I>,
    rounds: Seq<Seq<Input<N, H, S, I>>>,
)
    requires
        global.locked_round is Some,
        chain_of(global, rounds).len() == 0,
    ensures
        after_rounds(global, rounds).locked_round is Some,
    decreases rounds.len(),
{
    if rounds.len() > 0 {
        let before = after_rounds(global, rounds.drop_last());
        law_lock_lasts(global, rounds.drop_last());
        law_round_decides_once(RoundView::opened(before), before, rounds.last());
    }
}

/// A voter that is locked prevotes for no block that is proposed afresh other
/// than the one that it is locked on, in any later round and at any point of
/// it, until it has finalized one.
pub proof fn law_lock_withholds_votes<N: BlockNumberOps, H, S, I>(
    global: GlobalView<N, H, I>,
    rounds: Seq<Seq<Input<N, H, S, I>>>,
    inputs: Seq<Input<N, H, S, I>>,
    proposal: Proposal<N, H>,
)
    requires
        global.locked_round is Some,
        chain_of(global, rounds).len() == 0,
        finalized_by(round_of(after_rounds(global, rounds), inputs).actions).len() == 0,
        proposal.valid_round is None,
    ensures
        ({
            let run = round_of(after_rounds(global, rounds), inputs);
            let prevote = run.global.prevote_on(proposal, run.round.round);
            prevote.target_hash is Some <==> run.global.locked_value == Some(proposal.target_hash)
        }),
{
    law_lock_lasts(global, rounds);
    let before = after_rounds(global, rounds);
    law_round_decides_once(RoundView::opened(before), before, inputs);
}

/// A block that is proposed afresh to a voter that is not locked, and that the
/// first vote of each quorum names, is finalized, whatever else comes in on
/// the way and whether or not the waits have expired.
pub proof fn law_agreed_block_is_finalized<N: BlockNumberOps, H, S, I>(
    round: RoundView<N, H, S, I>,
    global: GlobalView<N, H, I>,
    proposal: Proposal<N, H>,
    at_prevotes: RoundStateView<N, H, S, I>,
    at_precommits: RoundStateView<N, H, S, I>,
    expired: (bool, bool, bool),
)
    requires
        round.step == Step::AwaitingProposal,
        round.state.proposal == Some(proposal),
        proposal.valid_round is None,
        global.locked_round is None,
        at_prevotes.prevotes.len() >= global.voters.threshold,
        at_prevotes.prevotes.first().target_hash == Some(proposal.target_hash),
        at_prevotes.prevotes.first().target_height == proposal.target_height,
        at_precommits.precommits.len() >= global.voters.threshold,
        at_precommits.precommits.first().commit.target_hash == Some(proposal.target_hash),
        at_precommits.precommits.first().commit.target_height == proposal.target_height,
    ensures
        ({
            let prevoted = round.next(global, Event::Polled { expired: expired.0 });
            let sent = prevoted.round.next(prevoted.global, Event::Sent);
            let polled = RoundView { state: at_prevotes, ..sent.round };
            let precommitted = polled.next(sent.global, Event::Polled { expired: expired.1 });
            let sent_again = precommitted.round.next(precommitted.global, Event::Sent);
            let polled_again = RoundView { state: at_precommits, ..sent_again.round };
            let done = polled_again.next(sent_again.global, Event::Polled { expired: expired.2 });
            &&& prevoted.action == ActionView::<N, H, S, I>::Send(
                Message::Prevote(
                    Prevote {
                        target_hash: Some(proposal.target_hash),
                        target_height: proposal.target_height,
                        round: proposal.round,
                    },
                ),
            )
            &&& precommitted.action == ActionView::<N, H, S, I>::Send(
                Message::Precommit(
                    Precommit {
                        target_hash: Some(proposal.target_hash),
                        target_height: proposal.target_height,
                        round: round.round,
                    },
                ),
            )
            &&& done.action matches ActionView::Finish(Ok(commit))
            &&& commit.target_hash == proposal.target_hash
            &&& commit.target_number == proposal.target_height
            &&& done.global == (GlobalView {
                current_state: CurrentState::Precommit,
                ..global.finalized(proposal.target_height, proposal.target_hash)
            })
        }),
{
}

/// The prevote that the actions send, if they send one.
pub open spec fn prevote_sent<N, H, S, I>(actions: Seq<ActionView<N, H, S, I>>) -> Option<
    Prevote<N, H>,
>
    decreases actions.len(),
{
    if actions.len() == 0 {
        None
    } else if let ActionView::Send(Message::Prevote(prevote)) = actions.last() {
        Some(prevote)
    } else {
        prevote_sent(actions.drop_last())
    }
}

/// The input is no proposal of `proposer`, or a fresh one of the block.
pub open spec fn proposes_at_most<N, H, S, I>(
    proposer: I,
    input: Input<N, H, S, I>,
    block: (N, H),
) -> bool {
    match input {
        Input::Incoming(SignedMessage { id, message: Message::Proposal(proposal), .. }) => id
            == proposer ==> {
            &&& proposal.target_height == block.0
            &&& proposal.target_hash == block.1
            &&& proposal.valid_round is None
        },
        _ => true,
    }
}

/// The voters agree on a block: the proposer proposes it afresh and nothing
/// else, and the first prevote and the first precommit are for it.
pub open spec fn agrees_on<N, H, S, I>(
    proposer: I,
    inputs: Seq<Input<N, H, S, I>>,
    block: (N, H),
) -> bool {
    &&& forall|i: int|
        0 <= i < inputs.len() ==> proposes_at_most(proposer, #[trigger] inputs[i], block)
    &&& incoming_prevotes(inputs).len() > 0 ==> {
        let first = incoming_prevotes(inputs).first();
        first.target_height == block.0 && first.target_hash == Some(block.1)
    }
    &&& incoming_precommits(inputs).len() > 0 ==> {
        let first = incoming_precommits(inputs).first().commit;
        first.target_height == block.0 && first.target_hash == Some(block.1)
    }
}

/// No wait of the voter's round expires before what it waits for has come in.
pub open spec fn in_time<N: BlockNumberOps, H, S, I>(
    global: GlobalView<N, H, I>,
    inputs: Seq<Input<N, H, S, I>>,
) -> bool
    decreases inputs.len(),
{
    inputs.len() > 0 ==> {
        let run = round_of(global, inputs.drop_last());
        &&& in_time(global, inputs.drop_last())
        &&& inputs.last() == Input::<N, H, S, I>::Event(Event::Polled { expired: true }) ==> match
        run.round.step {
            Step::AwaitingProposal => run.round.state.proposal is Some,
            Step::AwaitingPrevotes => run.round.has_prevote_quorum(global),
            Step::AwaitingPrecommits => run.round.has_precommit_quorum(global),
            _ => true,
        }
    }
}

/// Where the voters agree on a block in time, a voter that is not locked votes
/// for that block, precommits to it and ends the round with it and with
/// nothing else, holding nothing.
///
/// A quorum takes at least one vote.
pub proof fn law_agreed_round_finalizes<N: BlockNumberOps, H, S, I>(
    global: GlobalView<N, H, I>,
    inputs: Seq<Input<N, H, S, I>>,
    block: (N, H),
)
    requires
        global.voters.threshold > 0,
        global.locked_round is None,
        agrees_on(global.voters.proposer(global.round), inputs, block),
        in_time(global, inputs),
    ensures
        ({
            let run = round_of(global, inputs);
            &&& prevote_sent(run.actions) matches Some(prevote) ==> {
                &&& prevote.target_height == block.0
                &&& prevote.target_hash == Some(block.1)
            }
            &&& precommit_sent(run.actions) matches Some(precommit) ==> {
                &&& precommit.target_height == block.0
                &&& precommit.target_hash == Some(block.1)
            }
            &&& run.round.step == Step::Finished ==> {
                &&& finalized_by(run.actions) == seq![block]
                &&& outcome(run.actions) matches Some(Ok(_))
                &&& run.global.height == successor(global.height)
                &&& holds_nothing(run.global)
            }
            &&& run.round.step != Step::Finished ==> finalized_by(run.actions).len() == 0
        }),
    decreases inputs.len(),
{
    if inputs.len() > 0 {
        let earlier = inputs.drop_last();
        let opened = RoundView::<N, H, S, I>::opened(global);
        let before = round_of(global, earlier);
        lemma_agreement_holds_earlier(opened.state.proposer, inputs, block);
        law_agreed_round_finalizes(global, earlier, block);
        law_round_keeps_what_comes_in(opened, global, earlier);
        law_round_keeps_identity(opened, global, earlier);
        law_held_value_had_a_quorum(opened, global, earlier);
        law_round_decides_once(opened, global, earlier);
        lemma_agreed_proposal(opened.state.proposer, earlier, block);
        if let Input::Event(event) = inputs.last() {
            let action = before.round.next(before.global, event).action;
            assert(before.actions.push(action).drop_last() =~= before.actions);
        }
    }
}

/// What the voters agree on, they agreed on one input earlier.
proof fn lemma_agreement_holds_earlier<N, H, S, I>(
    proposer: I,
    inputs: Seq<Input<N, H, S, I>>,
    block: (N, H),
)
    requires
        inputs.len() > 0,
        agrees_on(proposer, inputs, block),
    ensures
        agrees_on(proposer, inputs.drop_last(), block),
{
    let earlier = inputs.drop_last();
    assert forall|i: int| 0 <= i < earlier.len() implies proposes_at_most(
        proposer,
        #[trigger] earlier[i],
        block,
    ) by {
        assert(proposes_at_most(proposer, inputs[i], block));
    }
}

/// The proposal that counts is the one that the voters agree on.
proof fn lemma_agreed_proposal<N, H, S, I>(
    proposer: I,
    inputs: Seq<Input<N, H, S, I>>,
    block: (N, H),
)
    requires
        agrees_on(proposer, inputs, block),
    ensures
        incoming_proposal(proposer, inputs) matches Some(proposal) ==> {
            &&& proposal.target_height == block.0
            &&& proposal.target_hash == block.1
            &&& proposal.valid_round is None
        },
    decreases inputs.len(),
{
    if inputs.len() > 0 {
        lemma_agreement_holds_earlier(proposer, inputs, block);
        lemma_agreed_proposal(proposer, inputs.drop_last(), block);
        assert(proposes_at_most(proposer, inputs[inputs.len() - 1], block));
    }
}

/// In each of the rounds the voters agree, in time, on a block for the next
/// height, which exists, and the voter's round comes to its end.
pub open spec fn agreed_rounds<N: BlockNumberOps, H, S, I>(
    global: GlobalView<N, H, I>,
    rounds: Seq<Seq<Input<N, H, S, I>>>,
    blocks: Seq<(N, H)>,
) -> bool
    decreases rounds.len(),
{
    &&& rounds.len() == blocks.len()
    &&& rounds.len() > 0 ==> {
        let before = after_rounds(global, rounds.drop_last());
        &&& agreed_rounds(global, rounds.drop_last(), blocks.drop_last())
        &&& has_successor(before.height)
        &&& blocks.last().0 == successor(before.height)
        &&& agrees_on(before.voters.proposer(before.round), rounds.last(), blocks.last())
        &&& in_time(before, rounds.last())
        &&& round_of(before, rounds.last()).round.step == Step::Finished
    }
}

/// Where the voters agree in every round, a voter that is not locked makes
/// progress in every round: the blocks that it finalizes are exactly those that
/// were agreed on, in order, its height grows by their number, and it ends
/// without a lock.
///
/// A quorum takes at least one vote.
pub proof fn law_agreed_rounds_make_progress<N: BlockNumberOps, H, S, I>(
    global: GlobalView<N, H, I>,
    rounds: Seq<Seq<Input<N, H, S, I>>>,
    blocks: Seq<(N, H)>,
)
    requires
        global.voters.threshold > 0,
        global.locked_round is None,
        agreed_rounds(global, rounds, blocks),
    ensures
        ({
            let after = after_rounds(global, rounds);
            &&& chain_of(global, rounds) == blocks
            &&& in_order(global, rounds)
            &&& after.height.number() == global.height.number() + blocks.len()
            &&& after.locked_round is None
            &&& blocks.len() > 0 ==> holds_nothing(after)
        }),
    decreases rounds.len(),
{
    if rounds.len() > 0 {
        let before = after_rounds(global, rounds.drop_last());
        law_agreed_rounds_make_progress(global, rounds.drop_last(), blocks.drop_last());
        law_rounds_keep_identity(global, rounds.drop_last());
        law_agreed_round_finalizes(before, rounds.last(), blocks.last());
        lemma_successor(before.height);
        assert(chain_of(global, rounds) =~= blocks);
    } else {
        assert(chain_of(global, rounds) =~= blocks);
    }
}

/// The inputs that the trace of a network holds for voter `i`, in order.
pub open spec fn inputs_of<N, H, S, I>(
    trace: Seq<(int, Input<N, H, S, I>)>,
    i: int,
) -> Seq<Input<N, H, S, I>>
    decreases trace.len(),
{
    if trace.len() == 0 {
        Seq::empty()
    } else if trace.last().0 == i {
        inputs_of(trace.drop_last(), i).push(trace.last().1)
    } else {
        inputs_of(trace.drop_last(), i)
    }
}

/// The run of voter `i` of a network through what the trace holds for it.
pub open spec fn run_in<N: BlockNumberOps, H, S, I>(
    globals: Seq<GlobalView<N, H, I>>,
    trace: Seq<(int, Input<N, H, S, I>)>,
    i: int,
) -> Run<N, H, S, I> {
    round_of(globals[i], inputs_of(trace, i))
}

/// The actions send the message.
pub open spec fn sends<N, H, S, I>(
    actions: Seq<ActionView<N, H, S, I>>,
    message: Message<N, H>,
) -> bool {
    exists|k: int|
        0 <= k < actions.len() && #[trigger] actions[k] == ActionView::<N, H, S, I>::Send(message)
}

/// Every message that comes in to a voter was sent before by a voter with the
/// id that it bears. Messages may be lost, repeated, delayed and reordered.
pub open spec fn delivers_what_is_sent<N: BlockNumberOps, H, S, I>(
    globals: Seq<GlobalView<N, H, I>>,
    trace: Seq<(int, Input<N, H, S, I>)>,
) -> bool
    decreases trace.len(),
{
    trace.len() > 0 ==> {
        let earlier = trace.drop_last();
        &&& delivers_what_is_sent(globals, earlier)
        &&& match trace.last().1 {
            Input::Incoming(signed_msg) => exists|j: int|
                {
                    &&& 0 <= j < globals.len()
                    &&& globals[j].local_id == signed_msg.id
                    &&& sends((#[trigger] run_in(globals, earlier, j)).actions, signed_msg.message)
                },
            Input::Event(_) => true,
        }
    }
}

/// Whoever is asked for a block gives this one.
pub open spec fn gives_block<N, H, S, I>(
    trace: Seq<(int, Input<N, H, S, I>)>,
    block: (N, H),
) -> bool {
    forall|k: int|
        0 <= k < trace.len() ==> match (#[trigger] trace[k]).1 {
            Input::Event(Event::Proposed { target_height, target_hash }) => target_height
                == block.0 && target_hash == block.1,
            _ => true,
        }
}

/// The voters hold nothing and share the voter set, in which a quorum takes at
/// least one vote, and the round.
pub open spec fn ready_together<N, H, I>(globals: Seq<GlobalView<N, H, I>>) -> bool {
    forall|j: int|
        0 <= j < globals.len() ==> {
            &&& (#[trigger] globals[j]).locked_round is None
            &&& globals[j].valid_value is None
            &&& globals[j].voters == globals[0].voters
            &&& globals[j].voters.threshold > 0
            &&& globals[j].round == globals[0].round
        }
}

/// The voters exchange what they send, each in time, and whoever is asked for a
/// block gives this one.
pub open spec fn exchanges<N: BlockNumberOps, H, S, I>(
    globals: Seq<GlobalView<N, H, I>>,
    trace: Seq<(int, Input<N, H, S, I>)>,
    block: (N, H),
) -> bool {
    &&& delivers_what_is_sent(globals, trace)
    &&& gives_block(trace, block)
    &&& forall|j: int|
        0 <= j < globals.len() ==> in_time(#[trigger] globals[j], inputs_of(trace, j))
}

/// The message is a fresh proposal of the block or a vote for it.
pub open spec fn is_about<N, H>(message: Message<N, H>, block: (N, H)) -> bool {
    match message {
        Message::Proposal(proposal) => {
            &&& proposal.target_height == block.0
            &&& proposal.target_hash == block.1
            &&& proposal.valid_round is None
        },
        Message::Prevote(prevote) => {
            &&& prevote.target_height == block.0
            &&& prevote.target_hash == Some(block.1)
        },
        Message::Precommit(precommit) => {
            &&& precommit.target_height == block.0
            &&& precommit.target_hash == Some(block.1)
        },
    }
}

/// Whatever comes in is about the block.
pub open spec fn hears_only_of<N, H, S, I>(
    inputs: Seq<Input<N, H, S, I>>,
    block: (N, H),
) -> bool {
    forall|k: int|
        0 <= k < inputs.len() ==> ((#[trigger] inputs[k]) matches Input::Incoming(signed_msg)
            ==> is_about(signed_msg.message, block))
}

/// Where voters that hold nothing exchange what they send, each in time, and
/// whoever is asked for a block gives the same one, everything that they hear
/// and send is about that block.
pub proof fn law_network_speaks_of_one_block<N: BlockNumberOps, H, S, I>(
    globals: Seq<GlobalView<N, H, I>>,
    trace: Seq<(int, Input<N, H, S, I>)>,
    block: (N, H),
)
    requires
        ready_together(globals),
        exchanges(globals, trace, block),
    ensures
        forall|j: int|
            0 <= j < globals.len() ==> hears_only_of(#[trigger] inputs_of(trace, j), block),
        forall|j: int, message: Message<N, H>|
            0 <= j < globals.len() && #[trigger] sends(run_in(globals, trace, j).actions, message)
                ==> is_about(message, block),
    decreases trace.len(),
{
    if trace.len() > 0 {
        let earlier = trace.drop_last();
        let k = trace.last().0;
        let input = trace.last().1;
        assert(exchanges(globals, earlier, block)) by {
            assert forall|j: int| 0 <= j < globals.len() implies in_time(
                #[trigger] globals[j],
                inputs_of(earlier, j),
            ) by {
                assert(in_time(globals[j], inputs_of(trace, j)));
                if j == k {
                    assert(inputs_of(trace, j).drop_last() =~= inputs_of(earlier, j));
                }
            }
            assert forall|m: int| 0 <= m < earlier.len() implies match (#[trigger] earlier[m]).1 {
                Input::Event(Event::Proposed { target_height, target_hash }) => target_height
                    == block.0 && target_hash == block.1,
                _ => true,
            } by {
                assert(trace[m] == earlier[m]);
            }
        }
        law_network_speaks_of_one_block(globals, earlier, block);
        if 0 <= k < globals.len() {
            assert(hears_only_of(inputs_of(earlier, k), block));
            assert(hears_only_of(inputs_of(trace, k), block)) by {
                if let Input::Incoming(signed_msg) = input {
                    assert(is_about(signed_msg.message, block));
                }
                let all = inputs_of(trace, k);
                let before = inputs_of(earlier, k);
                assert forall|m: int| 0 <= m < all.len() implies ((
                #[trigger] all[m]) matches Input::Incoming(signed_msg) ==> is_about(
                    signed_msg.message,
                    block,
                )) by {
                    if m < before.len() {
                        assert(all[m] == before[m]);
                    }
                }
            }
            assert(in_time(globals[k], inputs_of(trace, k)));
            assert(trace[trace.len() - 1] == trace.last());
            assert forall|message: Message<N, H>| #[trigger]
                sends(round_of(globals[k], inputs_of(earlier, k)).actions, message) implies is_about(
                message,
                block,
            ) by {
                assert(sends(run_in(globals, earlier, k).actions, message));
            }
            lemma_voter_sends_one_block(globals[k], inputs_of(earlier, k), input, block);
        }
        assert forall|j: int| 0 <= j < globals.len() implies hears_only_of(
            #[trigger] inputs_of(trace, j),
            block,
        ) by {
            assert(hears_only_of(inputs_of(earlier, j), block));
        }
        assert forall|j: int, message: Message<N, H>|
            0 <= j < globals.len() && #[trigger] sends(
                run_in(globals, trace, j).actions,
                message,
            ) implies is_about(message, block) by {
            if j != k {
                assert(sends(run_in(globals, earlier, j).actions, message));
            }
        }
    }
}

/// A voter that has heard and sent nothing but of one block sends nothing else
/// on the next input.
proof fn lemma_voter_sends_one_block<N: BlockNumberOps, H, S, I>(
    global: GlobalView<N, H, I>,
    earlier: Seq<Input<N, H, S, I>>,
    input: Input<N, H, S, I>,
    block: (N, H),
)
    requires
        global.locked_round is None,
        global.valid_value is None,
        global.voters.threshold > 0,
        hears_only_of(earlier.push(input), block),
        in_time(global, earlier.push(input)),
        match input {
            Input::Event(Event::Proposed { target_height, target_hash }) => target_height
                == block.0 && target_hash == block.1,
            _ => true,
        },
        forall|message: Message<N, H>| #[trigger]
            sends(round_of(global, earlier).actions, message) ==> is_about(message, block),
    ensures
        forall|message: Message<N, H>| #[trigger]
            sends(round_of(global, earlier.push(input)).actions, message) ==> is_about(
                message,
                block,
            ),
{
    let inputs = earlier.push(input);
    let opened = RoundView::<N, H, S, I>::opened(global);
    let before = round_of(global, earlier);
    let after = round_of(global, inputs);
    assert(inputs.drop_last() =~= earlier);
    lemma_hearing_is_agreement(opened.state.proposer, inputs, block);
    law_agreed_round_finalizes(global, inputs, block);
    law_held_value_had_a_quorum(opened, global, earlier);
    assert forall|message: Message<N, H>| #[trigger] sends(after.actions, message) implies is_about(
        message,
        block,
    ) by {
        let k = choose|k: int|
            0 <= k < after.actions.len() && #[trigger] after.actions[k] == ActionView::<
                N,
                H,
                S,
                I,
            >::Send(message);
        if k < before.actions.len() {
            assert(before.actions[k] == after.actions[k]);
            assert(sends(before.actions, message));
        } else {
            assert(after.actions.last() == ActionView::<N, H, S, I>::Send(message));
        }
    }
}

/// Voters of which nothing but one block is heard agree on it.
proof fn lemma_hearing_is_agreement<N, H, S, I>(
    proposer: I,
    inputs: Seq<Input<N, H, S, I>>,
    block: (N, H),
)
    requires
        hears_only_of(inputs, block),
    ensures
        agrees_on(proposer, inputs, block),
    decreases inputs.len(),
{
    if inputs.len() > 0 {
        let earlier = inputs.drop_last();
        assert forall|k: int| 0 <= k < earlier.len() implies ((
        #[trigger] earlier[k]) matches Input::Incoming(signed_msg) ==> is_about(
            signed_msg.message,
            block,
        )) by {
            assert(earlier[k] == inputs[k]);
        }
        lemma_hearing_is_agreement(proposer, earlier, block);
        assert(inputs[inputs.len() - 1] == inputs.last());
    }
    assert forall|i: int| 0 <= i < inputs.len() implies proposes_at_most(
        proposer,
        #[trigger] inputs[i],
        block,
    ) by {}
}

/// Where voters that hold nothing exchange what they send, each in time, and
/// whoever is asked for a block gives the same one, every voter that comes to
/// the end of its round has finalized that block and nothing else. It stands
/// one height up and holds nothing.
pub proof fn law_network_finalizes<N: BlockNumberOps, H, S, I>(
    globals: Seq<GlobalView<N, H, I>>,
    trace: Seq<(int, Input<N, H, S, I>)>,
    block: (N, H),
    i: int,
)
    requires
        ready_together(globals),
        exchanges(globals, trace, block),
        0 <= i < globals.len(),
        run_in(globals, trace, i).round.step == Step::Finished,
    ensures
        ({
            let run = run_in(globals, trace, i);
            &&& finalized_by(run.actions) == seq![block]
            &&& run.global.height == successor(globals[i].height)
            &&& run.global.decision == globals[i].decision.insert(block.0, block.1)
            &&& holds_nothing(run.global)
        }),
{
    let opened = RoundView::<N, H, S, I>::opened(globals[i]);
    let inputs = inputs_of(trace, i);
    law_network_speaks_of_one_block(globals, trace, block);
    assert(hears_only_of(inputs, block));
    assert(in_time(globals[i], inputs));
    lemma_hearing_is_agreement(opened.state.proposer, inputs, block);
    law_agreed_round_finalizes(globals[i], inputs, block);
    law_round_decides_once(opened, globals[i], inputs);
}

/// What one trace after another holds for voter `i`, round by round.
pub open spec fn rounds_of<N, H, S, I>(
    traces: Seq<Seq<(int, Input<N, H, S, I>)>>,
    i: int,
) -> Seq<Seq<Input<N, H, S, I>>> {
    Seq::new(traces.len(), |r: int| inputs_of(traces[r], i))
}

/// The voters of a network after one round after another, each with its trace.
pub open spec fn voters_after<N: BlockNumberOps, H, S, I>(
    globals: Seq<GlobalView<N, H, I>>,
    traces: Seq<Seq<(int, Input<N, H, S, I>)>>,
) -> Seq<GlobalView<N, H, I>> {
    Seq::new(globals.len(), |i: int| after_rounds(globals[i], rounds_of(traces, i)))
}

/// In each of the rounds the voters exchange what they send, each in time,
/// whoever is asked for a block gives the same one, for the next height of
/// every voter, which exists, and every voter comes to the end of its round.
pub open spec fn exchanges_in_rounds<N: BlockNumberOps, H, S, I>(
    globals: Seq<GlobalView<N, H, I>>,
    traces: Seq<Seq<(int, Input<N, H, S, I>)>>,
    blocks: Seq<(N, H)>,
) -> bool
    decreases traces.len(),
{
    &&& traces.len() == blocks.len()
    &&& traces.len() > 0 ==> {
        let before = voters_after(globals, traces.drop_last());
        &&& exchanges_in_rounds(globals, traces.drop_last(), blocks.drop_last())
        &&& exchanges(before, traces.last(), blocks.last())
        &&& forall|i: int|
            0 <= i < globals.len() ==> {
                &&& has_successor((#[trigger] before[i]).height)
                &&& blocks.last().0 == successor(before[i].height)
                &&& run_in(before, traces.last(), i).round.step == Step::Finished
            }
    }
}

/// Round after round, voters that exchange what they send finalize the same
/// chain: every one of them finalizes exactly the blocks that were given, in
/// order, grows by their number and ends holding nothing, ready for the next
/// round.
pub proof fn law_network_makes_progress<N: BlockNumberOps, H, S, I>(
    globals: Seq<GlobalView<N, H, I>>,
    traces: Seq<Seq<(int, Input<N, H, S, I>)>>,
    blocks: Seq<(N, H)>,
)
    requires
        ready_together(globals),
        exchanges_in_rounds(globals, traces, blocks),
    ensures
        ready_together(voters_after(globals, traces)),
        forall|i: int|
            0 <= i < globals.len() ==> {
                let rounds = #[trigger] rounds_of(traces, i);
                let after = after_rounds(globals[i], rounds);
                &&& chain_of(globals[i], rounds) == blocks
                &&& in_order(globals[i], rounds)
                &&& after.height.number() == globals[i].height.number() + blocks.len()
                &&& blocks.len() > 0 ==> holds_nothing(after)
            },
    decreases traces.len(),
{
    let earlier = traces.drop_last();
    let before = voters_after(globals, earlier);
    if traces.len() > 0 {
        law_network_makes_progress(globals, earlier, blocks.drop_last());
    }
    assert forall|i: int| 0 <= i < globals.len() implies {
        let rounds = #[trigger] rounds_of(traces, i);
        let after = after_rounds(globals[i], rounds);
        &&& chain_of(globals[i], rounds) == blocks
        &&& in_order(globals[i], rounds)
        &&& after.height.number() == globals[i].height.number() + blocks.len()
        &&& blocks.len() > 0 ==> holds_nothing(after)
    } by {
        let rounds = rounds_of(traces, i);
        if traces.len() > 0 {
            assert(rounds.drop_last() =~= rounds_of(earlier, i));
            assert(before[i] == after_rounds(globals[i], rounds.drop_last()));
            law_network_finalizes(before, traces.last(), blocks.last(), i);
            lemma_successor(before[i].height);
        }
        assert(chain_of(globals[i], rounds) =~= blocks);
    }
    assert forall|i: int| 0 <= i < globals.len() implies {
        let after = #[trigger] voters_after(globals, traces)[i];
        &&& after.locked_round is None
        &&& after.valid_value is None
        &&& after.voters == globals[i].voters
        &&& after.round == globals[i].round
    } by {
        law_rounds_keep_identity(globals[i], rounds_of(traces, i));
    }
}

/// A voter to which nothing comes in while another voter is to propose votes
/// twice for no block and ends the round without one. The round leaves no
/// trace in what the voter keeps but the step that it reached.
pub proof fn law_silent_round_votes_for_nothing<N: BlockNumberOps, H, S, I>(
    global: GlobalView<N, H, I>,
)
    requires
        global.voters.proposer(global.round) != global.local_id,
        global.voters.threshold > 0,
    ensures
        ({
            let expired = Input::<N, H, S, I>::Event(Event::Polled { expired: true });
            let sent = Input::<N, H, S, I>::Event(Event::Sent);
            let run = Run::through(
                RoundView::opened(global),
                global,
                seq![Input::Event(Event::Started), expired, sent, expired, sent, expired],
            );
            &&& run.actions == seq![
                ActionView::<N, H, S, I>::Wait,
                ActionView::Send(
                    Message::Prevote(
                        Prevote {
                            target_hash: None,
                            target_height: global.height,
                            round: global.round,
                        },
                    ),
                ),
                ActionView::Wait,
                ActionView::Send(
                    Message::Precommit(
                        Precommit {
                            target_hash: None,
                            target_height: global.height,
                            round: global.round,
                        },
                    ),
                ),
                ActionView::Wait,
                ActionView::Finish(Err(Seq::empty())),
            ]
            &&& run.global == GlobalView { current_state: CurrentState::Prevote, ..global }
        }),
{
    let expired = Input::<N, H, S, I>::Event(Event::Polled { expired: true });
    let sent = Input::<N, H, S, I>::Event(Event::Sent);
    let started = Input::<N, H, S, I>::Event(Event::Started);
    let inputs = seq![started, expired, sent, expired, sent, expired];
    reveal_with_fuel(Run::through, 7);
    assert(inputs.drop_last() =~= seq![started, expired, sent, expired, sent]);
    assert(inputs.drop_last().drop_last() =~= seq![started, expired, sent, expired]);
    assert(inputs.drop_last().drop_last().drop_last() =~= seq![started, expired, sent]);
    assert(seq![started, expired, sent].drop_last() =~= seq![started, expired]);
    assert(seq![started, expired].drop_last() =~= seq![started]);
    assert(seq![started].drop_last() =~= Seq::empty());
}

/// What is logged for a round is read back where it is more than a quorum
/// takes, and leaves what is read of the other rounds as it was.
pub proof fn law_log_is_read_back<N, H, I>(
    global: GlobalView<N, H, I>,
    round: u64,
    prevotes: Seq<Prevote<N, H>>,
)
    ensures
        global.appended(round, prevotes).logged(round) == if prevotes.len()
            > global.voters.threshold {
            Some(prevotes)
        } else {
            None
        },
        forall|other: u64|
            other != round ==> #[trigger] global.appended(round, prevotes).logged(other)
                == global.logged(other),
{
}

} // verus!
