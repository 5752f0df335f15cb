//! What a voter keeps, what it takes in and what it copies and compares, field
//! by field.

use crate::global::{CurrentState, GlobalView};
use crate::messages::{FinalizedCommit, Message, Prevote, Proposal, SignedMessage};
use crate::number::{has_successor, successor, BlockNumberOps};
use crate::round::{
    Action, ActionView, Event, RoundView, Step, Transition, ROUND_PAUSE_MILLIS, WAIT_MILLIS,
};
use crate::round_state::RoundStateView;
use crate::value::{
    cloned_option, clones_exactly, compared, compares_exactly, copied, copied_option,
    law_copies_are_exact,
};
use crate::voters::VoterSetView;
use vstd::prelude::*;
use vstd::std_specs::cmp::PartialEqSpec;

verus! {

/// A round pauses for a second before it starts, and none of its waits lasts
/// longer than one.
pub proof fn law_waits_last_a_second()
    ensures
        ROUND_PAUSE_MILLIS == 1000,
        WAIT_MILLIS == 1000,
{
}

/// One can be added to every block number that is a `u64` but the last.
pub proof fn law_every_u64_but_the_last_has_a_successor(n: u64)
    ensures
        has_successor(n) <==> n < u64::MAX,
        n < u64::MAX ==> successor(n) == n + 1,
        n.number() == n,
{
}

/// The voters propose in turn: each of them once in as many rounds as there are
/// voters, in the order in which they are given, and then all over again.
pub proof fn law_voters_take_turns<I>(voters: VoterSetView<I>, round: u64, later: u64)
    requires
        voters.voters.len() > 0,
    ensures
        round < voters.voters.len() ==> voters.proposer(round) == voters.voters[round as int],
        later == round + voters.voters.len() ==> voters.proposer(later) == voters.proposer(round),
{
    let len = voters.voters.len() as int;
    if round < len {
        vstd::arithmetic::div_mod::lemma_small_mod(round as nat, len as nat);
    }
    if later == round + len {
        vstd::arithmetic::div_mod::lemma_mod_add_multiples_vanish(round as int, len);
    }
}

/// A round opens before its start, for the voter's height and round, with the
/// voter whose turn it is, and nothing has come in.
pub proof fn law_round_opens_empty<N, H, S, I>(global: GlobalView<N, H, I>, proposer: I)
    ensures
        ({
            let round = RoundView::<N, H, S, I>::opened(global);
            &&& round.step == Step::Pausing
            &&& round.height == global.height
            &&& round.round == global.round
            &&& round.state == RoundStateView::<N, H, S, I>::empty(
                global.voters.proposer(global.round),
            )
        }),
        ({
            let state = RoundStateView::<N, H, S, I>::empty(proposer);
            &&& state.proposer == proposer
            &&& state.proposal is None
            &&& state.prevotes.len() == 0
            &&& state.precommits.len() == 0
        }),
{
}

/// A vote that comes in is put behind those that have come, as it is and
/// whoever sent it; a proposal takes the place of the one before if it is taken
/// to come from the proposer, and is dropped otherwise. Nothing else changes,
/// and a message changes no step.
pub proof fn law_message_is_taken_in<N, H, S, I>(
    round: RoundView<N, H, S, I>,
    signed_msg: SignedMessage<N, H, S, I>,
    from_proposer: bool,
)
    ensures
        ({
            let after = round.received_as(signed_msg, from_proposer);
            &&& after.step == round.step
            &&& after.height == round.height
            &&& after.round == round.round
            &&& after.state == round.state.received_as(signed_msg, from_proposer)
            &&& after.state.proposer == round.state.proposer
            &&& after.state.proposal == match signed_msg.message {
                Message::Proposal(proposal) if from_proposer => Some(proposal),
                _ => round.state.proposal,
            }
            &&& match signed_msg.message {
                Message::Prevote(prevote) => {
                    &&& after.state.prevotes.len() == round.state.prevotes.len() + 1
                    &&& after.state.prevotes.drop_last() == round.state.prevotes
                    &&& after.state.prevotes.last() == prevote
                },
                _ => after.state.prevotes == round.state.prevotes,
            }
            &&& match signed_msg.message {
                Message::Precommit(precommit) => {
                    &&& after.state.precommits.len() == round.state.precommits.len() + 1
                    &&& after.state.precommits.drop_last() == round.state.precommits
                    &&& after.state.precommits.last().commit == precommit
                    &&& after.state.precommits.last().signature == signed_msg.signature
                    &&& after.state.precommits.last().id == signed_msg.id
                },
                _ => after.state.precommits == round.state.precommits,
            }
        }),
        round.received(signed_msg) == round.received_as(
            signed_msg,
            round.state.proposer == signed_msg.id,
        ),
        round.received(signed_msg).state == round.state.received(signed_msg),
{
    match signed_msg.message {
        Message::Prevote(prevote) => {
            assert(round.state.prevotes.push(prevote).drop_last() =~= round.state.prevotes);
        },
        Message::Precommit(_) => {
            let after = round.received_as(signed_msg, from_proposer);
            assert(after.state.precommits.drop_last() =~= round.state.precommits);
        },
        _ => {},
    }
}

/// Two votes that come in one after the other are kept in that order, and
/// neither changes the votes of the other kind.
pub proof fn law_votes_are_kept_apart<N, H, S, I>(
    round: RoundView<N, H, S, I>,
    prevote: SignedMessage<N, H, S, I>,
    precommit: SignedMessage<N, H, S, I>,
)
    requires
        prevote.message is Prevote,
        precommit.message is Precommit,
    ensures
        round.received(prevote).received(precommit) == round.received(precommit).received(prevote),
{
}

/// A voter starts at the height of the block that it starts from, in round
/// zero, and knows that block and no other. It holds nothing and has logged
/// nothing.
pub proof fn law_voter_starts_blank<N, H, I>(
    local_id: I,
    voters: VoterSetView<I>,
    target: (N, H),
)
    ensures
        ({
            let global = GlobalView::starting_from(local_id, voters, target);
            &&& global.local_id == local_id
            &&& global.voters == voters
            &&& global.height == target.0
            &&& global.round == 0
            &&& global.decision.contains_key(target.0)
            &&& global.decision[target.0] == target.1
            &&& forall|n: N| #[trigger] global.decision.contains_key(n) ==> n == target.0
            &&& global.locked_value is None
            &&& global.locked_round is None
            &&& global.valid_value is None
            &&& global.valid_round is None
            &&& global.current_state == CurrentState::Proposal
            &&& forall|round: u64| !#[trigger] global.message_log.contains_key(round)
        }),
{
}

/// Taking a block as the last finalized one decides it at its height, puts the
/// voter at that height and changes nothing else.
pub proof fn law_target_is_taken<N, H, I>(global: GlobalView<N, H, I>, target: (N, H))
    ensures
        ({
            let after = global.retargeted(target);
            &&& after.height == target.0
            &&& after.decision.contains_key(target.0)
            &&& after.decision[target.0] == target.1
            &&& forall|n: N|
                n != target.0 ==> {
                    &&& #[trigger] after.decision.contains_key(n) == global.decision.contains_key(n)
                    &&& after.decision[n] == global.decision[n]
                }
            &&& GlobalView { height: global.height, decision: global.decision, ..after } == global
        }),
{
}

/// Logging a round puts its prevotes in the log in place of what was logged for
/// it and changes nothing else. What is read of a round is all of its logged
/// prevotes, if they are more than a quorum takes, and nothing otherwise.
pub proof fn law_log_keeps_each_round<N, H, I>(
    global: GlobalView<N, H, I>,
    round: u64,
    prevotes: Seq<Prevote<N, H>>,
)
    ensures
        ({
            let after = global.appended(round, prevotes);
            &&& after.message_log.contains_key(round)
            &&& after.message_log[round] == prevotes
            &&& forall|other: u64|
                other != round ==> {
                    &&& #[trigger] after.message_log.contains_key(other)
                        == global.message_log.contains_key(other)
                    &&& after.message_log[other] == global.message_log[other]
                }
            &&& GlobalView { message_log: global.message_log, ..after } == global
        }),
        global.logged(round) is Some <==> global.message_log.contains_key(round)
            && global.message_log[round].len() > global.voters.threshold,
        global.logged(round) matches Some(logged) ==> logged == global.message_log[round],
{
}

/// A voter votes for a fresh proposal exactly when it is not locked or is locked
/// on its block, and for any other exactly when that names a past round for
/// which more prevotes are logged than a quorum takes. Its prevote is at the
/// height and in the round of the proposal; without a proposal it is for no
/// block, at the voter's own.
pub proof fn law_voter_votes_by_lock_and_log<N, H, I>(
    global: GlobalView<N, H, I>,
    proposal: Proposal<N, H>,
    round: u64,
    equal: bool,
)
    ensures
        global.endorses(proposal, round) <==> match proposal.valid_round {
            None => global.locked_round is None || global.locked_value == Some(
                proposal.target_hash,
            ),
            Some(valid_round) => valid_round < round && global.message_log.contains_key(valid_round)
                && global.message_log[valid_round].len() > global.voters.threshold,
        },
        global.endorses_as(proposal, round, equal) <==> match proposal.valid_round {
            None => global.locked_round is None || global.locked_value is Some && equal,
            Some(valid_round) => valid_round < round && global.message_log.contains_key(valid_round)
                && global.message_log[valid_round].len() > global.voters.threshold,
        },
        ({
            let prevote = global.prevote_on(proposal, round);
            &&& prevote.target_hash is Some <==> global.endorses(proposal, round)
            &&& prevote.target_hash is Some ==> prevote.target_hash == Some(proposal.target_hash)
            &&& prevote.target_height == proposal.target_height
            &&& prevote.round == proposal.round
        }),
        ({
            let prevote = global.prevote_on_none();
            &&& prevote.target_hash is None
            &&& prevote.target_height == global.height
            &&& prevote.round == global.round
        }),
        global.compares_with_lock(proposal) <==> proposal.valid_round is None
            && global.locked_round is Some && global.locked_value is Some,
{
}

/// An action is seen as what it is.
pub proof fn law_action_is_seen_as_it_is<N, H, S, I>(
    action: Action<N, H, S, I>,
    commit: FinalizedCommit<N, H, S, I>,
)
    ensures
        (match (action, action@) {
            (Action::Wait, ActionView::Wait) => true,
            (
                Action::Propose { round, parent },
                ActionView::Propose { round: seen_round, parent: seen_parent },
            ) => seen_round == round && seen_parent == parent,
            (Action::Send(message), ActionView::Send(seen)) => seen == message,
            (Action::Finish(Ok(finalized)), ActionView::Finish(Ok(seen))) => seen == finalized@,
            (Action::Finish(Err(prevotes)), ActionView::Finish(Err(seen))) => seen == prevotes@,
            _ => false,
        }),
        commit@.commits == commit.commits@,
        commit@.target_hash == commit.target_hash,
        commit@.target_number == commit.target_number,
{
}

/// A type whose clones are the cloned values clones exactly, and one whose `==`
/// tells whether two values are the same compares exactly; a comparison then
/// has no other result. The integers do both.
pub proof fn law_exact_types<T: Clone, U: PartialEq>(a: U, b: U, r: bool)
    ensures
        (forall|x: T, y: T| #[trigger] cloned(x, y) ==> x == y) <==> clones_exactly::<T>(),
        U::obeys_eq_spec() && (forall|x: U, y: U| #[trigger] x.eq_spec(&y) <==> x == y)
            <==> compares_exactly::<U>(),
        compares_exactly::<U>() && compared(a, b, r) ==> r == (a == b),
        U::obeys_eq_spec() && compared(a, b, r) ==> r == a.eq_spec(&b),
        clones_exactly::<u64>(),
        compares_exactly::<u64>(),
{
}

/// Whatever holds of a value and is kept by every clone holds of its copies,
/// and every clone of a copy is a copy.
pub proof fn law_copies_keep_what_clones_keep<T: Clone>(a: T, b: T, holds: spec_fn(T) -> bool)
    requires
        copied(a, b),
        holds(a),
        forall|x: T, y: T| holds(x) && #[trigger] cloned(x, y) ==> holds(y),
    ensures
        holds(b),
{
    let chain = choose|chain: Seq<T>| #[trigger]
        crate::value::clone_chain(chain) && chain.len() > 0 && chain.first() == a && chain.last()
            == b;
    lemma_chain_keeps(chain, holds, chain.len() as int - 1);
}

/// What the first of a chain of clones has and every clone keeps, each of them
/// has.
proof fn lemma_chain_keeps<T: Clone>(chain: Seq<T>, holds: spec_fn(T) -> bool, k: int)
    requires
        crate::value::clone_chain(chain),
        0 <= k < chain.len(),
        holds(chain.first()),
        forall|x: T, y: T| holds(x) && #[trigger] cloned(x, y) ==> holds(y),
    ensures
        holds(chain[k]),
    decreases k,
{
    if k > 0 {
        lemma_chain_keeps(chain, holds, k - 1);
        assert(cloned(chain[k - 1], chain[k - 1 + 1]));
    }
}

/// The value is there on both sides, and the one a copy of the other, or on
/// neither.
pub proof fn law_copied_options<T: Clone>(a: Option<T>, b: Option<T>)
    ensures
        copied_option(a, b) <==> {
            ||| a is None && b is None
            ||| a is Some && b is Some && copied(a->0, b->0)
        },
        cloned_option(a, b) <==> {
            ||| a is None && b is None
            ||| a is Some && b is Some && cloned(a->0, b->0)
        },
{
}

/// What an answer copies differs from what it is copied from in nothing but the
/// hashes, signatures and senders, and each of those is a copy: the round and
/// everything else that the voter keeps are the same, and so are the kind of
/// the action, the heights, the rounds, and how many votes are handed out in
/// which order.
pub proof fn law_only_copies_differ<N, H: Clone, S: Clone, I: Clone>(
    from: Transition<N, H, S, I>,
    to: Transition<N, H, S, I>,
)
    requires
        from.copied_to(to),
    ensures
        to.round == from.round,
        (GlobalView {
            decision: from.global.decision,
            locked_value: from.global.locked_value,
            valid_value: from.global.valid_value,
            ..to.global
        }) == from.global,
        copied_option(from.global.locked_value, to.global.locked_value),
        copied_option(from.global.valid_value, to.global.valid_value),
        forall|n: N| #[trigger]
            from.global.decision.contains_key(n) == to.global.decision.contains_key(n),
        forall|n: N| #[trigger]
            from.global.decision.contains_key(n) ==> copied(
                from.global.decision[n],
                to.global.decision[n],
            ),
        (match from.action {
            ActionView::Wait => to.action is Wait,
            ActionView::Propose { round, parent } => {
                &&& to.action matches ActionView::Propose { round: to_round, parent: to_parent }
                &&& to_round == round
                &&& copied(parent, to_parent)
            },
            ActionView::Send(Message::Proposal(proposal)) => {
                &&& to.action matches ActionView::Send(Message::Proposal(to_proposal))
                &&& copied(proposal.target_hash, to_proposal.target_hash)
                &&& to_proposal.target_height == proposal.target_height
                &&& to_proposal.valid_round == proposal.valid_round
                &&& to_proposal.round == proposal.round
            },
            ActionView::Send(Message::Prevote(prevote)) => {
                &&& to.action matches ActionView::Send(Message::Prevote(to_prevote))
                &&& copied_option(prevote.target_hash, to_prevote.target_hash)
                &&& to_prevote.target_height == prevote.target_height
                &&& to_prevote.round == prevote.round
            },
            ActionView::Send(Message::Precommit(precommit)) => {
                &&& to.action matches ActionView::Send(Message::Precommit(to_precommit))
                &&& copied_option(precommit.target_hash, to_precommit.target_hash)
                &&& to_precommit.target_height == precommit.target_height
                &&& to_precommit.round == precommit.round
            },
            ActionView::Finish(Ok(commit)) => {
                &&& to.action matches ActionView::Finish(Ok(to_commit))
                &&& copied(commit.target_hash, to_commit.target_hash)
                &&& to_commit.target_number == commit.target_number
                &&& to_commit.commits.len() == commit.commits.len()
                &&& forall|i: int|
                    0 <= i < commit.commits.len() ==> {
                        let a = #[trigger] commit.commits[i];
                        let b = to_commit.commits[i];
                        &&& copied_option(a.commit.target_hash, b.commit.target_hash)
                        &&& b.commit.target_height == a.commit.target_height
                        &&& b.commit.round == a.commit.round
                        &&& copied(a.signature, b.signature)
                        &&& copied(a.id, b.id)
                    }
            },
            ActionView::Finish(Err(prevotes)) => {
                &&& to.action matches ActionView::Finish(Err(to_prevotes))
                &&& to_prevotes.len() == prevotes.len()
                &&& forall|i: int|
                    0 <= i < prevotes.len() ==> {
                        let a = #[trigger] prevotes[i];
                        let b = to_prevotes[i];
                        &&& copied_option(a.target_hash, b.target_hash)
                        &&& b.target_height == a.target_height
                        &&& b.round == a.round
                    }
            },
        }),
{
}

/// Where hashes, signatures and ids clone exactly, what an answer copies is the
/// same as what it is copied from.
pub proof fn law_exact_copies_are_the_same<N, H: Clone, S: Clone, I: Clone>(
    from: Transition<N, H, S, I>,
    to: Transition<N, H, S, I>,
)
    requires
        from.copied_to(to),
        clones_exactly::<H>(),
        clones_exactly::<S>(),
        clones_exactly::<I>(),
    ensures
        from == to,
{
    law_only_copies_differ(from, to);
    assert forall|a: H, b: H| #[trigger] copied(a, b) implies a == b by {
        law_copies_are_exact(a, b);
    }
    assert forall|a: S, b: S| #[trigger] copied(a, b) implies a == b by {
        law_copies_are_exact(a, b);
    }
    assert forall|a: I, b: I| #[trigger] copied(a, b) implies a == b by {
        law_copies_are_exact(a, b);
    }
    assert(from.global.decision.dom() =~= to.global.decision.dom());
    assert(from.global.decision =~= to.global.decision);
    match (from.action, to.action) {
        (ActionView::Finish(Ok(a)), ActionView::Finish(Ok(b))) => {
            assert(a.commits =~= b.commits);
        },
        (ActionView::Finish(Err(a)), ActionView::Finish(Err(b))) => {
            assert(a =~= b);
        },
        _ => {},
    }
}

/// The answer to an event is the model's to the letter where ids and hashes
/// compare exactly and hashes, signatures and ids clone exactly. It is so
/// without any of these where the answer neither copies nor compares.
pub proof fn law_answers_are_exact<
    N: BlockNumberOps,
    H: Clone + PartialEq,
    S: Clone,
    I: Clone + PartialEq,
>(round: RoundView<N, H, S, I>, global: GlobalView<N, H, I>, event: Event<N, H>)
    ensures
        clones_exactly::<H>() && clones_exactly::<S>() && clones_exactly::<I>()
            && compares_exactly::<H>() && compares_exactly::<I>() ==> round.copies_exactly(
            global,
            event,
        ),
        event is Sent || event is Proposed ==> round.copies_exactly(global, event),
        round.step == Step::Pausing && event is Started && compares_exactly::<I>()
            && round.state.proposer != global.local_id ==> round.copies_exactly(global, event),
        round.step == Step::AwaitingProposal && event is Polled && (round.state.proposal is None
            || clones_exactly::<H>() && (compares_exactly::<H>() || round.state.proposal->0.valid_round
            is Some || global.locked_round is None || global.locked_value is None))
            ==> round.copies_exactly(global, event),
        round.step == Step::AwaitingPrevotes && event is Polled && (clones_exactly::<H>()
            || round.state.prevotes.len() < global.voters.threshold
            || round.state.prevotes[0].target_hash is None) ==> round.copies_exactly(global, event),
        round.step == Step::AwaitingPrecommits && event is Polled && clones_exactly::<H>() && (
        round.state.precommits.len() < global.voters.threshold
            || round.state.precommits[0].commit.target_hash is None)
            ==> round.copies_exactly(global, event),
{
}

/// The one comparison of an answer is of the proposer with the voter, at the
/// start, or of the block of a fresh proposal with the one that the voter is
/// locked on. A copy stays with the voter only when it locks on a block or
/// finalizes one.
pub proof fn law_answers_compare_and_keep<
    N: BlockNumberOps,
    H: Clone + PartialEq,
    S: Clone,
    I: Clone + PartialEq,
>(
    round: RoundView<N, H, S, I>,
    global: GlobalView<N, H, I>,
    event: Event<N, H>,
    equal: bool,
)
    requires
        round.compares(global, event, equal),
    ensures
        round.step == Step::Pausing && event is Started ==> compared(
            round.state.proposer,
            global.local_id,
            equal,
        ),
        round.step == Step::AwaitingProposal && event is Polled && round.state.proposal is Some
            && round.state.proposal->0.valid_round is None && global.locked_round is Some
            && global.locked_value is Some ==> compared(
            global.locked_value->0,
            round.state.proposal->0.target_hash,
            equal,
        ),
        round.keeps_copies(global, event) ==> event is Polled && {
            ||| round.step == Step::AwaitingPrevotes && round.state.prevotes.len()
                >= global.voters.threshold && round.state.prevotes[0].target_hash is Some
            ||| round.step == Step::AwaitingPrecommits && round.state.precommits.len()
                >= global.voters.threshold && round.state.precommits[0].commit.target_hash is Some
        },
        compares_exactly::<H>() && compares_exactly::<I>() ==> round.next_as(global, event, equal)
            == round.next(global, event),
{
}

/// What comparing a proposal with the lock may give is what comparing their
/// hashes may give, if the voter is locked on a block and the proposal is
/// fresh.
pub proof fn law_lock_is_compared_with_the_proposal<N, H: PartialEq, I>(
    global: GlobalView<N, H, I>,
    proposal: Proposal<N, H>,
    equal: bool,
)
    requires
        proposal.valid_round is None,
        global.locked_round is Some,
        global.locked_value is Some,
    ensures
        global.lock_compared(proposal, equal) <==> compared(
            global.locked_value->0,
            proposal.target_hash,
            equal,
        ),
{
}

} // verus!
