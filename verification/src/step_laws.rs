//! What each step of a round does, field by field.
//!
//! The laws here speak of what has come in, of what the voter keeps and of the
//! answer, so that they can be read without the definitions that make up
//! [`RoundView::next`].

use crate::global::{CurrentState, GlobalView};
use crate::laws::{
    incoming_precommits, incoming_prevotes, incoming_proposal, law_round_has_the_voters_height,
    law_round_keeps_identity, law_round_keeps_what_comes_in, round_of, Input,
};
use crate::messages::{Message, Proposal};
use crate::number::{lemma_successor, BlockNumberOps};
use crate::round::{ActionView, Event, RoundView, Step};
use crate::value::{compared, compares_exactly};
use vstd::prelude::*;
use vstd::std_specs::ops::AddSpec;

verus! {

/// The event is none that a round at this step waits for.
pub open spec fn is_out_of_turn<N, H>(step: Step, event: Event<N, H>) -> bool {
    match event {
        Event::Started => step != Step::Pausing,
        Event::Proposed { .. } => step != Step::Proposing,
        Event::Sent => {
            &&& step != Step::SendingProposal
            &&& step != Step::SendingPrevote
            &&& step != Step::SendingPrecommit
        },
        Event::Polled { .. } => {
            &&& step != Step::AwaitingProposal
            &&& step != Step::AwaitingPrevotes
            &&& step != Step::AwaitingPrecommits
        },
    }
}

/// An event that the round does not wait for changes nothing, whatever the
/// voter keeps and whatever has come in, and is answered by waiting.
pub proof fn law_event_out_of_turn_changes_nothing<N: BlockNumberOps, H, S, I>(
    round: RoundView<N, H, S, I>,
    global: GlobalView<N, H, I>,
    event: Event<N, H>,
    equal: bool,
)
    requires
        is_out_of_turn(round.step, event),
    ensures
        round.next(global, event).round == round,
        round.next(global, event).global == global,
        round.next(global, event).action is Wait,
        round.next_as(global, event, equal) == round.next(global, event),
{
}

/// No event but the start changes the height or the number of a round, and none
/// what has come in to it, who the voter is, who votes with it, its round
/// number or its log.
pub proof fn law_event_keeps_what_came_in<N: BlockNumberOps, H, S, I>(
    round: RoundView<N, H, S, I>,
    global: GlobalView<N, H, I>,
    event: Event<N, H>,
)
    ensures
        ({
            let next = round.next(global, event);
            &&& next.round.state == round.state
            &&& next.global.local_id == global.local_id
            &&& next.global.voters == global.voters
            &&& next.global.round == global.round
            &&& next.global.message_log == global.message_log
            &&& !(round.step == Step::Pausing && event is Started) ==> {
                &&& next.round.height == round.height
                &&& next.round.round == round.round
            }
        }),
{
}

/// The start of a round answers by who is to propose and by what the voter
/// holds alone. Another voter's round waits for the proposal. The proposer
/// proposes the block again that it would propose again, one height up, with
/// the round in which that had a quorum; without one it asks for a block on top
/// of the one decided at its height. What the voter keeps stays, and the round
/// takes the voter's height and round number.
pub proof fn law_start_proposes_in_turn<N: BlockNumberOps, H, S, I>(
    round: RoundView<N, H, S, I>,
    global: GlobalView<N, H, I>,
    equal: bool,
)
    requires
        round.step == Step::Pausing,
    ensures
        ({
            let next = round.next_as(global, Event::Started, equal);
            &&& next.global == global
            &&& next.round.state == round.state
            &&& next.round.height == global.height
            &&& next.round.round == global.round
            &&& !equal ==> next.action is Wait && next.round.step == Step::AwaitingProposal
            &&& equal && global.valid_value is Some ==> {
                &&& next.round.step == Step::SendingProposal
                &&& next.action matches ActionView::Send(Message::Proposal(proposal))
                &&& Some(proposal.target_hash) == global.valid_value
                &&& proposal.valid_round == global.valid_round
                &&& proposal.round == global.round
                &&& global.height.add_req(N::one_spec()) ==> proposal.target_height.number()
                    == global.height.number() + 1
            }
            &&& equal && global.valid_value is None ==> {
                &&& next.round.step == Step::Proposing
                &&& next.action matches ActionView::Propose { round: number, parent }
                &&& number == global.round
                &&& parent == global.decision[global.height]
            }
        }),
        round.next(global, Event::Started) == round.next_as(
            global,
            Event::Started,
            round.state.proposer == global.local_id,
        ),
{
    if global.height.add_req(N::one_spec()) {
        lemma_successor(global.height);
    }
}

/// A block from the environment is proposed afresh, as it was given and under
/// the number of the round, whatever the voter holds.
pub proof fn law_given_block_is_proposed_afresh<N: BlockNumberOps, H, S, I>(
    round: RoundView<N, H, S, I>,
    global: GlobalView<N, H, I>,
    target_height: N,
    target_hash: H,
    equal: bool,
)
    requires
        round.step == Step::Proposing,
    ensures
        ({
            let event = Event::Proposed { target_height, target_hash };
            let next = round.next(global, event);
            &&& next.action matches ActionView::Send(Message::Proposal(proposal))
            &&& proposal.target_hash == target_hash
            &&& proposal.target_height == target_height
            &&& proposal.valid_round is None
            &&& proposal.round == round.round
            &&& next.round == RoundView { step: Step::SendingProposal, ..round }
            &&& next.global == global
            &&& round.next_as(global, event, equal) == next
        }),
{
}

/// A message that was sent takes the round to the wait for what it calls for
/// and changes nothing else, but that the voter is at its prevote once that was
/// sent.
pub proof fn law_sent_message_is_waited_on<N: BlockNumberOps, H, S, I>(
    round: RoundView<N, H, S, I>,
    global: GlobalView<N, H, I>,
    equal: bool,
)
    requires
        ({
            ||| round.step == Step::SendingProposal
            ||| round.step == Step::SendingPrevote
            ||| round.step == Step::SendingPrecommit
        }),
    ensures
        ({
            let next = round.next(global, Event::Sent);
            &&& next.action is Wait
            &&& next.round.state == round.state
            &&& next.round.height == round.height
            &&& next.round.round == round.round
            &&& round.step == Step::SendingProposal ==> {
                &&& next.round.step == Step::AwaitingProposal
                &&& next.global == global
            }
            &&& round.step == Step::SendingPrevote ==> {
                &&& next.round.step == Step::AwaitingPrevotes
                &&& next.global.current_state == CurrentState::Prevote
                &&& GlobalView { current_state: global.current_state, ..next.global } == global
            }
            &&& round.step == Step::SendingPrecommit ==> {
                &&& next.round.step == Step::AwaitingPrecommits
                &&& next.global == global
            }
            &&& round.next_as(global, Event::Sent, equal) == next
        }),
{
}

/// The wait for a proposal ends when one has come in, or when it has expired,
/// and not before, whatever the voter holds and whatever else has come in.
///
/// The prevote that follows is about the proposal. It is for the block of a
/// fresh proposal exactly when the voter is not locked or is locked on that
/// block, and for the block of any other exactly when that names a past round
/// for which more prevotes are logged than a quorum takes. Without a proposal
/// it is for no block, at the voter's height and round. What the voter keeps
/// stays.
pub proof fn law_proposal_is_voted_on<N: BlockNumberOps, H, S, I>(
    round: RoundView<N, H, S, I>,
    global: GlobalView<N, H, I>,
    expired: bool,
    equal: bool,
)
    requires
        round.step == Step::AwaitingProposal,
    ensures
        ({
            let next = round.next_as(global, Event::Polled { expired }, equal);
            &&& next.global == global
            &&& next.action is Wait <==> round.state.proposal is None && !expired
            &&& next.action is Wait ==> next.round == round
            &&& !(next.action is Wait) ==> {
                &&& next.round == RoundView { step: Step::SendingPrevote, ..round }
                &&& next.action matches ActionView::Send(Message::Prevote(prevote))
                &&& match round.state.proposal {
                    Some(proposal) => {
                        &&& prevote.target_height == proposal.target_height
                        &&& prevote.round == proposal.round
                        &&& prevote.target_hash is Some ==> prevote.target_hash == Some(
                            proposal.target_hash,
                        )
                        &&& prevote.target_hash is Some <==> match proposal.valid_round {
                            None => global.locked_round is None || global.locked_value is Some
                                && equal,
                            Some(valid_round) => {
                                &&& valid_round < round.round
                                &&& global.message_log.contains_key(valid_round)
                                &&& global.message_log[valid_round].len()
                                    > global.voters.threshold
                            },
                        }
                    },
                    None => {
                        &&& prevote.target_hash is None
                        &&& prevote.target_height == global.height
                        &&& prevote.round == global.round
                    },
                }
            }
        }),
        ({
            let next = round.next(global, Event::Polled { expired });
            &&& round.state.proposal is None ==> next == round.next_as(
                global,
                Event::Polled { expired },
                equal,
            )
            &&& round.state.proposal matches Some(proposal) ==> next == round.next_as(
                global,
                Event::Polled { expired },
                global.locked_value == Some(proposal.target_hash),
            )
        }),
{
}

/// In every round that has a fresh proposal, the prevote that the answer sends
/// is for its block exactly when the voter is not locked or is locked on that
/// block, whatever has come in and whether or not the wait has expired.
pub proof fn law_fresh_proposal_needs_the_lock<N: BlockNumberOps, H, S, I>(
    round: RoundView<N, H, S, I>,
    global: GlobalView<N, H, I>,
    expired: bool,
    proposal: Proposal<N, H>,
)
    requires
        round.step == Step::AwaitingProposal,
        round.state.proposal == Some(proposal),
        proposal.valid_round is None,
    ensures
        ({
            let action = round.next(global, Event::Polled { expired }).action;
            &&& action matches ActionView::Send(Message::Prevote(prevote))
            &&& prevote.target_hash == Some(proposal.target_hash) <==> global.locked_round is None
                || global.locked_value == Some(proposal.target_hash)
            &&& prevote.target_hash is None <==> global.locked_round is Some
                && global.locked_value != Some(proposal.target_hash)
        }),
{
}

/// The wait for prevotes ends when a quorum has come in, or when it has
/// expired, and not before, whatever the voter holds.
///
/// On a quorum the precommit has the hash and the height of the first prevote,
/// and the voter locks on what that prevote is for, in its round. If that is a
/// block, it is also the one to propose again, and the voter is at its
/// precommit. Without a quorum the precommit is for no block, at the height of
/// the round, and what the voter keeps stays. Either way it bears the number of
/// the round.
pub proof fn law_prevote_quorum_is_followed<N: BlockNumberOps, H, S, I>(
    round: RoundView<N, H, S, I>,
    global: GlobalView<N, H, I>,
    expired: bool,
    equal: bool,
)
    requires
        round.step == Step::AwaitingPrevotes,
    ensures
        ({
            let next = round.next(global, Event::Polled { expired });
            let quorum = round.state.prevotes.len() >= global.voters.threshold;
            let first = round.state.prevotes[0];
            &&& next.action is Wait <==> !quorum && !expired
            &&& next.action is Wait ==> next.round == round
            &&& !(next.action is Wait) ==> {
                &&& next.round == RoundView { step: Step::SendingPrecommit, ..round }
                &&& next.action matches ActionView::Send(Message::Precommit(precommit))
                &&& precommit.round == round.round
                &&& quorum ==> {
                    &&& precommit.target_hash == first.target_hash
                    &&& precommit.target_height == first.target_height
                }
                &&& !quorum ==> {
                    &&& precommit.target_hash is None
                    &&& precommit.target_height == round.height
                }
            }
            &&& !quorum ==> next.global == global
            &&& quorum ==> {
                &&& next.global.locked_value == first.target_hash
                &&& next.global.locked_round == Some(global.round)
                &&& first.target_hash is Some ==> {
                    &&& next.global.valid_value == first.target_hash
                    &&& next.global.valid_round == Some(global.round)
                    &&& next.global.current_state == CurrentState::Precommit
                }
                &&& first.target_hash is None ==> {
                    &&& next.global.valid_value == global.valid_value
                    &&& next.global.valid_round == global.valid_round
                    &&& next.global.current_state == global.current_state
                }
                &&& next.global.local_id == global.local_id
                &&& next.global.height == global.height
                &&& next.global.round == global.round
                &&& next.global.decision == global.decision
                &&& next.global.voters == global.voters
                &&& next.global.message_log == global.message_log
            }
            &&& round.next_as(global, Event::Polled { expired }, equal) == next
        }),
{
}

/// The wait for precommits ends when a quorum has come in, or when it has
/// expired, and not before, whatever the voter holds and whatever it voted for
/// itself.
///
/// The round finalizes a block exactly when a quorum has come in whose first
/// precommit is for one: that block, with all the precommits. The block is then
/// decided at its height, the voter is one height up and holds nothing. Any
/// other end hands over all the prevotes, and what the voter keeps stays.
pub proof fn law_precommit_quorum_finalizes<N: BlockNumberOps, H, S, I>(
    round: RoundView<N, H, S, I>,
    global: GlobalView<N, H, I>,
    expired: bool,
    equal: bool,
)
    requires
        round.step == Step::AwaitingPrecommits,
    ensures
        ({
            let next = round.next(global, Event::Polled { expired });
            let quorum = round.state.precommits.len() >= global.voters.threshold;
            let first = round.state.precommits[0].commit;
            let finalizes = quorum && first.target_hash is Some;
            &&& next.action is Wait <==> !quorum && !expired
            &&& next.action is Wait ==> next.round == round
            &&& !(next.action is Wait) ==> {
                &&& next.action is Finish
                &&& next.round == RoundView { step: Step::Finished, ..round }
            }
            &&& finalizes <==> (next.action matches ActionView::Finish(Ok(_)))
            &&& next.action matches ActionView::Finish(Ok(commit)) ==> {
                &&& commit.commits == round.state.precommits
                &&& Some(commit.target_hash) == first.target_hash
                &&& commit.target_number == first.target_height
            }
            &&& next.action matches ActionView::Finish(Err(prevotes)) ==> prevotes
                == round.state.prevotes
            &&& !finalizes ==> next.global == global
            &&& finalizes ==> {
                &&& next.global.decision.contains_key(first.target_height)
                &&& Some(next.global.decision[first.target_height]) == first.target_hash
                &&& forall|n: N|
                    n != first.target_height ==> {
                        &&& #[trigger] next.global.decision.contains_key(n)
                            == global.decision.contains_key(n)
                        &&& next.global.decision[n] == global.decision[n]
                    }
                &&& global.height.add_req(N::one_spec()) ==> next.global.height.number()
                    == global.height.number() + 1
                &&& next.global.locked_value is None
                &&& next.global.locked_round is None
                &&& next.global.valid_value is None
                &&& next.global.valid_round is None
                &&& next.global.local_id == global.local_id
                &&& next.global.round == global.round
                &&& next.global.voters == global.voters
                &&& next.global.current_state == global.current_state
                &&& next.global.message_log == global.message_log
            }
            &&& round.next_as(global, Event::Polled { expired }, equal) == next
        }),
{
    if global.height.add_req(N::one_spec()) {
        lemma_successor(global.height);
    }
}

/// Once a quorum of votes has come in, neither what the voter holds nor whether
/// the wait has expired changes the answer: two voters with the same quorum
/// size answer the same.
pub proof fn law_quorum_alone_decides<N: BlockNumberOps, H, S, I>(
    round: RoundView<N, H, S, I>,
    global: GlobalView<N, H, I>,
    other: GlobalView<N, H, I>,
    expired: (bool, bool),
)
    requires
        global.voters.threshold == other.voters.threshold,
        ({
            ||| round.step == Step::AwaitingPrevotes && round.state.prevotes.len()
                >= global.voters.threshold
            ||| round.step == Step::AwaitingPrecommits && round.state.precommits.len()
                >= global.voters.threshold
        }),
    ensures
        ({
            let next = round.next(global, Event::Polled { expired: expired.0 });
            let other_next = round.next(other, Event::Polled { expired: expired.1 });
            next.action == other_next.action && next.round == other_next.round
        }),
{
}

/// No wait ends before what it waits for is there: until then a poll changes
/// nothing, however often it is made and whatever the voter holds.
pub proof fn law_no_wait_ends_early<N: BlockNumberOps, H, S, I>(
    round: RoundView<N, H, S, I>,
    global: GlobalView<N, H, I>,
)
    requires
        match round.step {
            Step::AwaitingProposal => round.state.proposal is None,
            Step::AwaitingPrevotes => round.state.prevotes.len() < global.voters.threshold,
            Step::AwaitingPrecommits => round.state.precommits.len() < global.voters.threshold,
            _ => true,
        },
    ensures
        ({
            let next = round.next(global, Event::Polled { expired: false });
            next.action is Wait && next.round == round && next.global == global
        }),
{
}

/// Whatever went before in a voter's round, how it voted itself and what it
/// holds: once it waits for prevotes, it precommits to a block exactly when a
/// quorum of prevotes has come in since the round opened and the first was for
/// that block; once it waits for precommits, it finalizes a block exactly when
/// a quorum of precommits has come in and the first was for that block.
pub proof fn law_what_came_in_decides<N: BlockNumberOps, H, S, I>(
    global: GlobalView<N, H, I>,
    inputs: Seq<Input<N, H, S, I>>,
    expired: bool,
    hash: H,
)
    ensures
        ({
            let run = round_of(global, inputs);
            let action = run.round.next(run.global, Event::Polled { expired }).action;
            let prevotes = incoming_prevotes(inputs);
            let precommits = incoming_precommits(inputs);
            &&& run.round.step == Step::AwaitingPrevotes ==> (prevotes.len()
                >= global.voters.threshold && prevotes[0].target_hash == Some(hash) <==> (
            action matches ActionView::Send(Message::Precommit(precommit)) && precommit.target_hash
                == Some(hash)))
            &&& run.round.step == Step::AwaitingPrecommits ==> (precommits.len()
                >= global.voters.threshold && precommits[0].commit.target_hash == Some(hash) <==> (
            action matches ActionView::Finish(Ok(commit)) && commit.target_hash == hash))
        }),
{
    let opened = RoundView::<N, H, S, I>::opened(global);
    law_round_keeps_what_comes_in(opened, global, inputs);
    law_round_keeps_identity(opened, global, inputs);
}

/// Whatever went before in a voter's round: as long as it waits for the
/// proposal, nothing that the proposer sent has come in and the wait has not
/// expired, it sends no vote, and once the wait has expired it votes for no
/// block.
pub proof fn law_silent_proposer_is_waited_for<N: BlockNumberOps, H, S, I>(
    global: GlobalView<N, H, I>,
    inputs: Seq<Input<N, H, S, I>>,
    expired: bool,
)
    requires
        round_of(global, inputs).round.step == Step::AwaitingProposal,
        incoming_proposal(global.voters.proposer(global.round), inputs) is None,
    ensures
        ({
            let run = round_of(global, inputs);
            let next = run.round.next(run.global, Event::Polled { expired });
            &&& run.round.height == global.height
            &&& run.round.round == global.round
            &&& !expired ==> next.action is Wait && next.round == run.round
            &&& expired ==> (next.action matches ActionView::Send(Message::Prevote(prevote))
                && prevote.target_hash is None)
        }),
{
    let opened = RoundView::<N, H, S, I>::opened(global);
    law_round_keeps_what_comes_in(opened, global, inputs);
    law_round_has_the_voters_height(opened, global, inputs);
}

/// An event can be answered exactly when what the answer is made of is there,
/// whatever else the voter keeps. A voter that is not the proposer can always
/// start.
pub proof fn law_events_are_accepted<N: BlockNumberOps, H, S, I: PartialEq>(
    round: RoundView<N, H, S, I>,
    global: GlobalView<N, H, I>,
    event: Event<N, H>,
)
    ensures
        global.can_propose() <==> {
            ||| global.valid_value is Some && global.height.add_req(N::one_spec())
            ||| global.valid_value is None && global.decision.contains_key(global.height)
        },
        round.step == Step::Pausing && event is Started && {
            ||| global.can_propose()
            ||| compares_exactly::<I>() && round.state.proposer != global.local_id
            ||| forall|equal: bool| #[trigger]
                compared(round.state.proposer, global.local_id, equal) ==> !equal
        } ==> round.accepts(global, event),
        !(round.step == Step::Pausing && event is Started) ==> (round.accepts(global, event) <==> {
            &&& round.step == Step::Proposing ==> (event matches Event::Proposed {
                target_height,
                ..
            } ==> round.height.add_req(N::one_spec()) && target_height.number()
                == round.height.number() + 1)
            &&& round.step == Step::AwaitingPrevotes && event is Polled
                && round.state.prevotes.len() >= global.voters.threshold
                ==> round.state.prevotes.len() > 0
            &&& round.step == Step::AwaitingPrecommits && event is Polled
                && round.state.precommits.len() >= global.voters.threshold ==> {
                &&& round.state.precommits.len() > 0
                &&& round.state.precommits[0].commit.target_hash is Some
                    ==> global.height.add_req(N::one_spec())
            }
        }),
{
    N::lawful();
    if round.height.add_req(N::one_spec()) {
        lemma_successor(round.height);
    }
}

} // verus!
