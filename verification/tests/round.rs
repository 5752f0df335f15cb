//! One round, step by step.

use tendermint_voter::{
    Action, CurrentState, Event, FinalizedCommit, GlobalState, Message, Precommit, Prevote,
    Proposal, Round, RoundState, SignedCommit, SignedMessage, Step, VoterSet,
};

type Global = GlobalState<u64, &'static str, u64>;
type TestRound = Round<u64, &'static str, u64, u64>;
type TestAction = Action<u64, &'static str, u64, u64>;

/// Voter `local_id` of the four voters 0 to 3, at height 7.
fn global_of(local_id: u64) -> Global {
    let mut global = GlobalState::new(local_id, VoterSet::new(vec![0, 1, 2, 3], 3).unwrap());
    global.set_finalized_target((7, "seven"));
    global
}

fn proposal(hash: &'static str, valid_round: Option<u64>) -> Message<u64, &'static str> {
    Message::Proposal(Proposal { target_hash: hash, target_height: 8, valid_round, round: 0 })
}

fn prevote(hash: Option<&'static str>) -> Prevote<u64, &'static str> {
    Prevote { target_hash: hash, target_height: 8, round: 0 }
}

fn precommit(hash: Option<&'static str>) -> Precommit<u64, &'static str> {
    Precommit { target_hash: hash, target_height: 8, round: 0 }
}

fn receive(round: &mut TestRound, id: u64, message: Message<u64, &'static str>) {
    round.process_incoming(SignedMessage { id, message, signature: 100 + id });
}

/// The locked value and round, and the valid value and round.
fn held(
    global: &Global,
) -> (Option<&'static str>, Option<u64>, Option<&'static str>, Option<u64>) {
    (
        global.locked_value().copied(),
        global.locked_round(),
        global.valid_value().copied(),
        global.valid_round(),
    )
}

fn poll(round: &mut TestRound, global: &mut Global, expired: bool) -> TestAction {
    let event = Event::Polled { expired };
    assert!(round.is_accepted(global, &event));
    round.advance(global, event)
}

/// A round of voter 1, which waits for the proposal of voter 0.
fn awaiting_proposal() -> (Global, TestRound) {
    let mut global = global_of(1);
    let mut round = Round::new(0, &global);
    assert_eq!(round.advance(&mut global, Event::Started), Action::Wait);
    assert_eq!(round.step(), Step::AwaitingProposal);
    (global, round)
}

/// The same round once it has prevoted for "eight".
fn awaiting_prevotes() -> (Global, TestRound) {
    let (mut global, mut round) = awaiting_proposal();
    receive(&mut round, 0, proposal("eight", None));
    assert_eq!(
        poll(&mut round, &mut global, false),
        Action::Send(Message::Prevote(prevote(Some("eight"))))
    );
    assert_eq!(global.current_state(), CurrentState::Proposal);
    assert_eq!(round.advance(&mut global, Event::Sent), Action::Wait);
    assert_eq!(global.current_state(), CurrentState::Prevote);
    assert_eq!(round.step(), Step::AwaitingPrevotes);
    (global, round)
}

/// The same round once it has precommitted to "eight".
fn awaiting_precommits() -> (Global, TestRound) {
    let (mut global, mut round) = awaiting_prevotes();
    for id in 0..3 {
        assert_eq!(poll(&mut round, &mut global, false), Action::Wait);
        receive(&mut round, id, Message::Prevote(prevote(Some("eight"))));
    }
    assert_eq!(
        poll(&mut round, &mut global, false),
        Action::Send(Message::Precommit(precommit(Some("eight"))))
    );
    assert_eq!(held(&global), (Some("eight"), Some(0), Some("eight"), Some(0)));
    assert_eq!(global.current_state(), CurrentState::Precommit);
    assert_eq!(round.advance(&mut global, Event::Sent), Action::Wait);
    assert_eq!(global.current_state(), CurrentState::Precommit);
    assert_eq!(round.step(), Step::AwaitingPrecommits);
    (global, round)
}

#[test]
fn proposer_asks_for_a_block_and_proposes_it() {
    let mut global = global_of(0);
    let mut round: TestRound = Round::new(0, &global);
    assert!(round.round_state().is_proposer(&global));
    assert_eq!(
        round.advance(&mut global, Event::Started),
        Action::Propose { round: 0, parent: "seven" }
    );
    assert_eq!(round.step(), Step::Proposing);
    let block = Event::Proposed { target_height: 8, target_hash: "eight" };
    assert!(round.is_accepted(&global, &block));
    assert_eq!(round.advance(&mut global, block), Action::Send(proposal("eight", None)));
    assert_eq!(round.step(), Step::SendingProposal);
    assert_eq!(round.advance(&mut global, Event::Sent), Action::Wait);
    assert_eq!(round.step(), Step::AwaitingProposal);
    // The proposer waits for its own proposal like everybody else.
    assert_eq!(poll(&mut round, &mut global, false), Action::Wait);
}

#[test]
fn proposer_changes_with_the_round() {
    let global = global_of(1);
    for number in 0..6u64 {
        let round: TestRound = Round::new(number, &global);
        assert_eq!(*round.round_state().proposer(), number % 4);
        assert_eq!(round.round_state().is_proposer(&global), number % 4 == 1);
        assert_eq!(round.number(), number);
        assert_eq!(round.step(), Step::Pausing);
    }
}

#[test]
fn block_for_another_height_is_not_accepted() {
    let mut global = global_of(0);
    let mut round: TestRound = Round::new(0, &global);
    round.advance(&mut global, Event::Started);
    for target_height in [0, 7, 9] {
        let block = Event::Proposed { target_height, target_hash: "eight" };
        assert!(!round.is_accepted(&global, &block));
    }
}

#[test]
fn proposer_without_a_finalized_block_cannot_start() {
    let proposer: Global = GlobalState::new(0, VoterSet::new(vec![0, 1], 2).unwrap());
    let round: TestRound = Round::new(0, &proposer);
    assert!(!round.is_accepted(&proposer, &Event::Started));
    let other: Global = GlobalState::new(1, VoterSet::new(vec![0, 1], 2).unwrap());
    assert!(round.is_accepted(&other, &Event::Started));
}

#[test]
fn block_after_the_last_height_is_not_accepted() {
    let mut global: Global = GlobalState::new(0, VoterSet::new(vec![0], 1).unwrap());
    global.set_finalized_target((u64::MAX, "last"));
    let mut round: TestRound = Round::new(0, &global);
    assert_eq!(
        round.advance(&mut global, Event::Started),
        Action::Propose { round: 0, parent: "last" }
    );
    let block = Event::Proposed { target_height: 0, target_hash: "first" };
    assert!(!round.is_accepted(&global, &block));
}

#[test]
fn proposal_from_anyone_else_is_ignored() {
    let (mut global, mut round) = awaiting_proposal();
    receive(&mut round, 2, proposal("other", None));
    assert_eq!(*round.round_state().proposal(), None);
    assert_eq!(poll(&mut round, &mut global, false), Action::Wait);
    receive(&mut round, 0, proposal("eight", None));
    receive(&mut round, 2, proposal("other", None));
    assert_eq!(
        poll(&mut round, &mut global, false),
        Action::Send(Message::Prevote(prevote(Some("eight"))))
    );
}

#[test]
fn last_proposal_of_the_proposer_counts() {
    let (mut global, mut round) = awaiting_proposal();
    receive(&mut round, 0, proposal("one", None));
    receive(&mut round, 0, proposal("two", None));
    assert_eq!(
        poll(&mut round, &mut global, false),
        Action::Send(Message::Prevote(prevote(Some("two"))))
    );
}

#[test]
fn prevote_takes_height_and_round_from_the_proposal() {
    let (mut global, mut round) = awaiting_proposal();
    receive(
        &mut round,
        0,
        Message::Proposal(Proposal {
            target_hash: "far",
            target_height: 40,
            valid_round: None,
            round: 6,
        }),
    );
    assert_eq!(
        poll(&mut round, &mut global, true),
        Action::Send(Message::Prevote(Prevote {
            target_hash: Some("far"),
            target_height: 40,
            round: 6,
        }))
    );
}

#[test]
fn proposal_that_names_no_past_round_is_voted_down() {
    let (mut global, mut round) = awaiting_proposal();
    receive(&mut round, 0, proposal("eight", Some(0)));
    assert_eq!(
        poll(&mut round, &mut global, false),
        Action::Send(Message::Prevote(prevote(None)))
    );
}

#[test]
fn round_in_which_nothing_comes_votes_for_nothing() {
    let (mut global, mut round) = awaiting_proposal();
    assert_eq!(poll(&mut round, &mut global, false), Action::Wait);
    assert_eq!(
        poll(&mut round, &mut global, true),
        Action::Send(Message::Prevote(Prevote { target_hash: None, target_height: 7, round: 0 }))
    );
    assert_eq!(round.advance(&mut global, Event::Sent), Action::Wait);
    assert_eq!(
        poll(&mut round, &mut global, true),
        Action::Send(Message::Precommit(Precommit {
            target_hash: None,
            target_height: 7,
            round: 0,
        }))
    );
    assert_eq!(round.advance(&mut global, Event::Sent), Action::Wait);
    assert_eq!(poll(&mut round, &mut global, true), Action::Finish(Err(vec![])));
    assert_eq!(round.step(), Step::Finished);
    assert_eq!(global.height(), 7);
    assert_eq!(global.locked_round(), None);
    assert_eq!(global.current_state(), CurrentState::Prevote);
}

#[test]
fn quorum_of_precommits_finalizes() {
    let (mut global, mut round) = awaiting_precommits();
    let mut commits = Vec::new();
    for id in 1..4 {
        assert_eq!(poll(&mut round, &mut global, false), Action::Wait);
        receive(&mut round, id, Message::Precommit(precommit(Some("eight"))));
        commits.push(SignedCommit { commit: precommit(Some("eight")), signature: 100 + id, id });
    }
    assert_eq!(
        poll(&mut round, &mut global, false),
        Action::Finish(Ok(FinalizedCommit { commits, target_hash: "eight", target_number: 8 }))
    );
    assert_eq!(round.step(), Step::Finished);
    assert_eq!(global.height(), 8);
    assert_eq!(global.decided(&7), Some(&"seven"));
    assert_eq!(global.decided(&8), Some(&"eight"));
    assert_eq!(held(&global), (None, None, None, None));
    assert_eq!(global.current_state(), CurrentState::Precommit);
    assert_eq!(global.round(), 0);
}

#[test]
fn quorum_wins_over_an_expired_wait() {
    let (mut global, mut round) = awaiting_precommits();
    for id in 1..4 {
        receive(&mut round, id, Message::Precommit(precommit(Some("eight"))));
    }
    assert!(matches!(poll(&mut round, &mut global, true), Action::Finish(Ok(_))));
}

#[test]
fn first_precommit_decides() {
    let (mut global, mut round) = awaiting_precommits();
    receive(&mut round, 3, Message::Precommit(precommit(Some("three"))));
    receive(&mut round, 1, Message::Precommit(precommit(Some("eight"))));
    receive(&mut round, 2, Message::Precommit(precommit(Some("eight"))));
    match poll(&mut round, &mut global, false) {
        Action::Finish(Ok(commit)) => {
            assert_eq!(commit.target_hash, "three");
            assert_eq!(commit.commits.len(), 3);
        }
        other => panic!("{:?}", other),
    }
}

#[test]
fn voters_with_other_first_precommits_disagree() {
    let finalize = |order: [&'static str; 3]| {
        let (mut global, mut round) = awaiting_precommits();
        for hash in order {
            receive(&mut round, 2, Message::Precommit(precommit(Some(hash))));
        }
        poll(&mut round, &mut global, false);
        global.decided(&8).copied()
    };
    assert_eq!(finalize(["a", "b", "b"]), finalize(["a", "c", "b"]));
    assert_ne!(finalize(["a", "b", "b"]), finalize(["b", "b", "a"]));
}

#[test]
fn quorum_for_no_block_finalizes_nothing() {
    let (mut global, mut round) = awaiting_precommits();
    receive(&mut round, 3, Message::Precommit(precommit(None)));
    receive(&mut round, 1, Message::Precommit(precommit(Some("eight"))));
    receive(&mut round, 2, Message::Precommit(precommit(Some("eight"))));
    assert_eq!(
        poll(&mut round, &mut global, false),
        Action::Finish(Err(vec![prevote(Some("eight")); 3]))
    );
    assert_eq!(global.height(), 7);
    assert_eq!(held(&global), (Some("eight"), Some(0), Some("eight"), Some(0)));
}

#[test]
fn too_few_precommits_finalize_nothing() {
    let (mut global, mut round) = awaiting_precommits();
    receive(&mut round, 1, Message::Precommit(precommit(Some("eight"))));
    receive(&mut round, 2, Message::Precommit(precommit(Some("eight"))));
    assert_eq!(poll(&mut round, &mut global, false), Action::Wait);
    assert_eq!(
        poll(&mut round, &mut global, true),
        Action::Finish(Err(vec![prevote(Some("eight")); 3]))
    );
}

#[test]
fn first_prevote_decides_the_precommit() {
    let (mut global, mut round) = awaiting_prevotes();
    receive(
        &mut round,
        2,
        Message::Prevote(Prevote { target_hash: Some("far"), target_height: 40, round: 6 }),
    );
    receive(&mut round, 0, Message::Prevote(prevote(Some("eight"))));
    receive(&mut round, 1, Message::Prevote(prevote(Some("eight"))));
    assert_eq!(
        poll(&mut round, &mut global, false),
        Action::Send(Message::Precommit(Precommit {
            target_hash: Some("far"),
            target_height: 40,
            round: 0,
        }))
    );
    assert_eq!(held(&global), (Some("far"), Some(0), Some("far"), Some(0)));
}

#[test]
fn too_few_prevotes_lock_nothing() {
    let (mut global, mut round) = awaiting_prevotes();
    receive(&mut round, 0, Message::Prevote(prevote(Some("eight"))));
    receive(&mut round, 1, Message::Prevote(prevote(Some("eight"))));
    assert_eq!(
        poll(&mut round, &mut global, true),
        Action::Send(Message::Precommit(Precommit {
            target_hash: None,
            target_height: 7,
            round: 0,
        }))
    );
    assert_eq!(held(&global), (None, None, None, None));
    assert_eq!(global.current_state(), CurrentState::Prevote);
}

#[test]
fn votes_of_one_sender_count_each() {
    let (mut global, mut round) = awaiting_prevotes();
    for _ in 0..3 {
        receive(&mut round, 9, Message::Prevote(prevote(Some("eight"))));
    }
    assert!(matches!(poll(&mut round, &mut global, false), Action::Send(Message::Precommit(_))));
}

#[test]
fn quorum_of_no_votes_is_not_accepted() {
    let mut global: Global = GlobalState::new(1, VoterSet::new(vec![0, 1], 0).unwrap());
    let mut round: TestRound = Round::new(0, &global);
    round.advance(&mut global, Event::Started);
    poll(&mut round, &mut global, true);
    round.advance(&mut global, Event::Sent);
    assert!(!round.is_accepted(&global, &Event::Polled { expired: false }));
    receive(&mut round, 0, Message::Prevote(prevote(None)));
    poll(&mut round, &mut global, false);
    round.advance(&mut global, Event::Sent);
    assert!(!round.is_accepted(&global, &Event::Polled { expired: true }));
    receive(&mut round, 0, Message::Precommit(precommit(None)));
    assert_eq!(
        poll(&mut round, &mut global, false),
        Action::Finish(Err(vec![prevote(None)]))
    );
}

#[test]
fn finalization_at_the_last_height_is_not_accepted() {
    let mut global: Global = GlobalState::new(1, VoterSet::new(vec![0, 1], 1).unwrap());
    global.set_finalized_target((u64::MAX, "last"));
    let mut round: TestRound = Round::new(0, &global);
    round.advance(&mut global, Event::Started);
    poll(&mut round, &mut global, true);
    round.advance(&mut global, Event::Sent);
    poll(&mut round, &mut global, true);
    round.advance(&mut global, Event::Sent);
    receive(&mut round, 0, Message::Precommit(precommit(Some("eight"))));
    assert!(!round.is_accepted(&global, &Event::Polled { expired: false }));
}

#[test]
fn events_that_are_not_awaited_change_nothing() {
    let (mut global, mut round) = awaiting_prevotes();
    for event in [
        Event::Started,
        Event::Sent,
        Event::Proposed { target_height: 8, target_hash: "eight" },
        Event::Polled { expired: false },
    ] {
        assert_eq!(round.advance(&mut global, event), Action::Wait);
        assert_eq!(round.step(), Step::AwaitingPrevotes);
    }
    let (mut global, mut round) = awaiting_precommits();
    poll(&mut round, &mut global, true);
    assert_eq!(round.step(), Step::Finished);
    for event in [Event::Started, Event::Sent, Event::Polled { expired: true }] {
        assert_eq!(round.advance(&mut global, event), Action::Wait);
        assert_eq!(round.step(), Step::Finished);
    }
}

/// Voter 1 at height 7, locked on "eight" by a round that finalized nothing.
fn locked_on_eight() -> Global {
    let (mut global, mut round) = awaiting_precommits();
    assert!(matches!(poll(&mut round, &mut global, true), Action::Finish(Err(_))));
    assert_eq!(held(&global), (Some("eight"), Some(0), Some("eight"), Some(0)));
    assert_eq!(global.height(), 7);
    global
}

/// What voter 1 prevotes on a proposal of voter 0.
fn prevote_on(
    global: &mut Global,
    message: Message<u64, &'static str>,
) -> Prevote<u64, &'static str> {
    let mut round: TestRound = Round::new(0, global);
    assert_eq!(round.advance(global, Event::Started), Action::Wait);
    receive(&mut round, 0, message);
    match poll(&mut round, global, false) {
        Action::Send(Message::Prevote(prevote)) => prevote,
        other => panic!("{:?}", other),
    }
}

#[test]
fn lock_withholds_votes_until_a_block_is_finalized() {
    let mut global = locked_on_eight();
    assert_eq!(prevote_on(&mut global, proposal("other", None)), prevote(None));
    assert_eq!(prevote_on(&mut global, proposal("eight", None)), prevote(Some("eight")));
    assert_eq!(prevote_on(&mut global, proposal("eight", Some(0))), prevote(None));
    assert_eq!(held(&global), (Some("eight"), Some(0), Some("eight"), Some(0)));

    let mut round: TestRound = Round::new(0, &global);
    round.advance(&mut global, Event::Started);
    poll(&mut round, &mut global, true);
    round.advance(&mut global, Event::Sent);
    poll(&mut round, &mut global, true);
    round.advance(&mut global, Event::Sent);
    for id in 1..4 {
        receive(&mut round, id, Message::Precommit(precommit(Some("eight"))));
    }
    assert!(matches!(poll(&mut round, &mut global, false), Action::Finish(Ok(_))));
    assert_eq!(held(&global), (None, None, None, None));

    assert_eq!(prevote_on(&mut global, proposal("other", None)), prevote(Some("other")));
}

#[test]
fn lock_moves_to_the_block_of_the_next_quorum() {
    let mut global = locked_on_eight();
    let mut round: TestRound = Round::new(0, &global);
    round.advance(&mut global, Event::Started);
    poll(&mut round, &mut global, true);
    round.advance(&mut global, Event::Sent);
    for id in 0..3 {
        receive(&mut round, id, Message::Prevote(prevote(Some("other"))));
    }
    assert_eq!(
        poll(&mut round, &mut global, false),
        Action::Send(Message::Precommit(precommit(Some("other"))))
    );
    assert_eq!(held(&global), (Some("other"), Some(0), Some("other"), Some(0)));
}

#[test]
fn quorum_of_prevotes_for_no_block_locks_on_nothing() {
    let (mut global, mut round) = awaiting_prevotes();
    for id in 0..3 {
        receive(&mut round, id, Message::Prevote(prevote(None)));
    }
    assert_eq!(
        poll(&mut round, &mut global, false),
        Action::Send(Message::Precommit(precommit(None)))
    );
    assert_eq!(held(&global), (None, Some(0), None, None));
    assert_eq!(global.current_state(), CurrentState::Prevote);
    assert_eq!(prevote_on(&mut global, proposal("eight", None)), prevote(None));
}

#[test]
fn quorum_of_prevotes_for_no_block_keeps_the_valid_value() {
    let mut global = locked_on_eight();
    let mut round: TestRound = Round::new(0, &global);
    round.advance(&mut global, Event::Started);
    poll(&mut round, &mut global, true);
    round.advance(&mut global, Event::Sent);
    for id in 0..3 {
        receive(&mut round, id, Message::Prevote(prevote(None)));
    }
    poll(&mut round, &mut global, false);
    assert_eq!(held(&global), (None, Some(0), Some("eight"), Some(0)));
}

#[test]
fn proposer_proposes_the_valid_value_again() {
    let mut global = locked_on_eight();
    let mut round: TestRound = Round::new(1, &global);
    assert!(round.round_state().is_proposer(&global));
    assert!(round.is_accepted(&global, &Event::Started));
    assert_eq!(
        round.advance(&mut global, Event::Started),
        Action::Send(proposal("eight", Some(0)))
    );
    assert_eq!(round.step(), Step::SendingProposal);
    assert_eq!(round.advance(&mut global, Event::Sent), Action::Wait);
    assert_eq!(round.step(), Step::AwaitingProposal);
}

#[test]
fn valid_value_after_the_last_height_cannot_be_proposed_again() {
    let mut global = locked_on_eight();
    global.set_finalized_target((u64::MAX, "last"));
    assert_eq!(held(&global), (Some("eight"), Some(0), Some("eight"), Some(0)));
    let round: TestRound = Round::new(1, &global);
    assert!(round.round_state().is_proposer(&global));
    assert!(!round.is_accepted(&global, &Event::Started));
    // Another voter's round needs no next height to start.
    let round: TestRound = Round::new(0, &global);
    assert!(round.is_accepted(&global, &Event::Started));
}

#[test]
fn agreement_in_every_round_finalizes_a_block_in_every_round() {
    let mut global = global_of(1);
    let blocks = [(8, "eight"), (9, "nine"), (10, "ten")];
    for (target_height, target_hash) in blocks {
        let mut round: TestRound = Round::new(0, &global);
        round.advance(&mut global, Event::Started);
        receive(
            &mut round,
            0,
            Message::Proposal(Proposal { target_hash, target_height, valid_round: None, round: 0 }),
        );
        let vote = Prevote { target_hash: Some(target_hash), target_height, round: 0 };
        let commit = Precommit { target_hash: Some(target_hash), target_height, round: 0 };
        assert_eq!(
            poll(&mut round, &mut global, true),
            Action::Send(Message::Prevote(vote.clone()))
        );
        round.advance(&mut global, Event::Sent);
        receive(&mut round, 2, Message::Prevote(vote));
        receive(&mut round, 3, Message::Prevote(prevote(None)));
        receive(&mut round, 0, Message::Prevote(prevote(Some("other"))));
        assert_eq!(
            poll(&mut round, &mut global, true),
            Action::Send(Message::Precommit(commit.clone()))
        );
        round.advance(&mut global, Event::Sent);
        receive(&mut round, 2, Message::Precommit(commit));
        receive(&mut round, 3, Message::Precommit(precommit(None)));
        receive(&mut round, 0, Message::Precommit(precommit(Some("other"))));
        match poll(&mut round, &mut global, true) {
            Action::Finish(Ok(commit)) => {
                assert_eq!((commit.target_number, commit.target_hash), (target_height, target_hash))
            }
            other => panic!("{:?}", other),
        }
        assert_eq!(held(&global), (None, None, None, None));
    }
    assert_eq!(global.height(), 10);
    for (height, hash) in blocks {
        assert_eq!(global.decided(&height), Some(&hash));
    }
}

#[test]
fn round_state_keeps_what_comes_in() {
    let mut state: RoundState<u64, &'static str, u64, u64> = RoundState::new(0);
    assert_eq!(*state.proposer(), 0);
    assert_eq!(*state.proposal(), None);
    for id in [3, 1, 2] {
        state.process_incoming(SignedMessage {
            id,
            message: Message::Prevote(prevote(None)),
            signature: id,
        });
        state.process_incoming(SignedMessage {
            id,
            message: Message::Precommit(precommit(Some("eight"))),
            signature: id,
        });
    }
    assert_eq!(*state.prevotes(), vec![prevote(None); 3]);
    let senders: Vec<(u64, u64)> =
        state.precommits().iter().map(|commit| (commit.id, commit.signature)).collect();
    assert_eq!(senders, vec![(3, 3), (1, 1), (2, 2)]);
}

#[test]
fn environment_is_asked_for_a_block_once() {
    let mut global = global_of(0);
    let mut round: TestRound = Round::new(0, &global);
    assert!(matches!(round.advance(&mut global, Event::Started), Action::Propose { .. }));
    assert_eq!(round.advance(&mut global, Event::Started), Action::Wait);
    let block = Event::Proposed { target_height: 8, target_hash: "eight" };
    assert_eq!(round.advance(&mut global, block), Action::Send(proposal("eight", None)));
    assert_eq!(round.advance(&mut global, Event::Started), Action::Wait);
    assert_eq!(round.advance(&mut global, Event::Sent), Action::Wait);
    assert_eq!(round.advance(&mut global, Event::Started), Action::Wait);
}

#[test]
fn round_takes_height_and_number_from_the_voter_when_it_starts() {
    let mut global = global_of(1);
    let mut round: TestRound = Round::new(4, &global);
    assert_eq!(round.number(), 4);
    global.set_finalized_target((20, "twenty"));
    round.advance(&mut global, Event::Started);
    assert_eq!(round.number(), 0);
    poll(&mut round, &mut global, true);
    round.advance(&mut global, Event::Sent);
    assert_eq!(
        poll(&mut round, &mut global, true),
        Action::Send(Message::Precommit(Precommit {
            target_hash: None,
            target_height: 20,
            round: 0,
        }))
    );
}

/// A hash that is compared without regard to case and counts how often it was
/// copied.
#[derive(Debug)]
struct LooseHash {
    text: &'static str,
    copies: usize,
}

impl LooseHash {
    fn new(text: &'static str) -> LooseHash {
        LooseHash { text, copies: 0 }
    }
}

impl Clone for LooseHash {
    fn clone(&self) -> LooseHash {
        LooseHash { text: self.text, copies: self.copies + 1 }
    }
}

impl PartialEq for LooseHash {
    fn eq(&self, other: &LooseHash) -> bool {
        self.text.eq_ignore_ascii_case(other.text)
    }
}

/// Whether a voter that is locked on "Eight" votes for a fresh block.
fn votes_for(text: &'static str) -> Option<LooseHash> {
    let mut global: GlobalState<u64, LooseHash, u64> =
        GlobalState::new(1, VoterSet::new(vec![0, 1], 1).unwrap());
    let mut round: Round<u64, LooseHash, u64, u64> = Round::new(0, &global);
    round.advance(&mut global, Event::Started);
    round.advance(&mut global, Event::Polled { expired: true });
    round.advance(&mut global, Event::Sent);
    round.process_incoming(SignedMessage {
        id: 0,
        message: Message::Prevote(Prevote {
            target_hash: Some(LooseHash::new("Eight")),
            target_height: 8,
            round: 0,
        }),
        signature: 0,
    });
    round.advance(&mut global, Event::Polled { expired: false });
    assert_eq!(global.locked_value().unwrap().text, "Eight");
    assert!(global.locked_value().unwrap().copies > 0);

    let mut round: Round<u64, LooseHash, u64, u64> = Round::new(0, &global);
    round.advance(&mut global, Event::Started);
    round.process_incoming(SignedMessage {
        id: 0,
        message: Message::Proposal(Proposal {
            target_hash: LooseHash::new(text),
            target_height: 8,
            valid_round: None,
            round: 0,
        }),
        signature: 0,
    });
    match round.advance(&mut global, Event::Polled { expired: false }) {
        Action::Send(Message::Prevote(prevote)) => prevote.target_hash,
        other => panic!("{:?}", other),
    }
}

#[test]
fn hashes_are_compared_and_copied_as_their_type_says() {
    let hash = votes_for("EIGHT").unwrap();
    assert_eq!(hash.text, "EIGHT");
    assert_eq!(hash.copies, 1);
    assert!(votes_for("nine").is_none());
}
