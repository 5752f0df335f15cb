//! What a voter keeps from one round to the next.

use tendermint_voter::{
    BlockNumberOps, CurrentState, FinalizedCommit, GlobalState, Message, Precommit, Prevote,
    Proposal, SignedCommit, SignedMessage, Step, Voter, VoterSet,
};

type Global = GlobalState<u64, String, u64>;

fn global_with(voters: Vec<u64>, threshold: usize) -> Global {
    GlobalState::new(voters[0], VoterSet::new(voters, threshold).unwrap())
}

fn prevotes(count: usize) -> Vec<Prevote<u64, String>> {
    vec![Prevote { target_hash: Some("a".to_string()), target_height: 1, round: 0 }; count]
}

fn proposal(valid_round: Option<u64>) -> Proposal<u64, String> {
    Proposal { target_hash: "a".to_string(), target_height: 1, valid_round, round: 2 }
}

#[test]
fn current_state_starts_with_the_proposal() {
    assert_eq!(CurrentState::new(), CurrentState::Proposal);
}

#[test]
fn new_global_state_is_blank() {
    let global = global_with(vec![4, 5], 2);
    assert_eq!(*global.local_id(), 4);
    assert_eq!(global.height(), 0);
    assert_eq!(global.round(), 0);
    assert_eq!(global.decided(&0), None);
    assert_eq!(global.locked_value(), None);
    assert_eq!(global.locked_round(), None);
    assert_eq!(global.valid_value(), None);
    assert_eq!(global.valid_round(), None);
    assert_eq!(global.voters().threshold(), 2);
    assert_eq!(global.current_state(), CurrentState::Proposal);
    assert_eq!(global.get_round(0), None);
}

#[test]
fn finalized_target_is_decided() {
    let mut global = global_with(vec![4], 1);
    global.set_finalized_target((3, "three".to_string()));
    assert_eq!(global.height(), 3);
    assert_eq!(global.decided(&3), Some(&"three".to_string()));
    global.set_finalized_target((9, "nine".to_string()));
    assert_eq!(global.height(), 9);
    assert_eq!(global.decided(&3), Some(&"three".to_string()));
    assert_eq!(global.decided(&9), Some(&"nine".to_string()));
    global.set_finalized_target((3, "other".to_string()));
    assert_eq!(global.height(), 3);
    assert_eq!(global.decided(&3), Some(&"other".to_string()));
}

#[test]
fn log_is_read_back_above_the_threshold() {
    let mut global = global_with(vec![1, 2, 3, 4], 3);
    global.append_round(0, prevotes(3));
    assert_eq!(global.get_round(0), None);
    global.append_round(0, prevotes(4));
    assert_eq!(global.get_round(0), Some(prevotes(4)));
    global.append_round(7, prevotes(5));
    assert_eq!(global.get_round(0), Some(prevotes(4)));
    assert_eq!(global.get_round(7), Some(prevotes(5)));
    assert_eq!(global.get_round(1), None);
    global.append_round(7, prevotes(0));
    assert_eq!(global.get_round(7), None);
}

#[test]
fn proposal_that_names_a_round_needs_its_log() {
    let mut global = global_with(vec![1, 2, 3, 4], 3);
    assert!(global.endorses(&proposal(None), 2));
    assert!(!global.endorses(&proposal(Some(1)), 2));
    global.append_round(1, prevotes(4));
    assert!(global.endorses(&proposal(Some(1)), 2));
    assert!(!global.endorses(&proposal(Some(1)), 1));
    assert_eq!(
        global.prevote_on(&proposal(Some(1)), 2),
        Prevote { target_hash: Some("a".to_string()), target_height: 1, round: 2 }
    );
    assert_eq!(
        global.prevote_on(&proposal(Some(1)), 1),
        Prevote { target_hash: None, target_height: 1, round: 2 }
    );
    assert_eq!(
        global.prevote_on_none(),
        Prevote { target_hash: None, target_height: 0, round: 0 }
    );
}

#[test]
fn voter_starts_from_its_target() {
    let voters = VoterSet::new(vec![8, 9], 2).unwrap();
    let voter: Voter<u64, String, u64> = Voter::new(9, voters, (3, "three".to_string()));
    let global = voter.global();
    assert_eq!(*global.local_id(), 9);
    assert_eq!(global.height(), 3);
    assert_eq!(global.round(), 0);
    assert_eq!(global.decided(&3), Some(&"three".to_string()));
    assert_eq!(global.decided(&0), None);
    let round = voter.open_round::<u64>();
    assert_eq!(round.step(), Step::Pausing);
    assert_eq!(round.number(), 0);
    assert_eq!(*round.round_state().proposer(), 8);
}

#[test]
fn round_without_a_block_is_logged() {
    let voters = VoterSet::new(vec![8, 9], 2).unwrap();
    let mut voter: Voter<u64, String, u64> = Voter::new(9, voters, (3, "three".to_string()));
    assert_eq!(voter.close_round::<u64>(0, Err(prevotes(3))), None);
    assert_eq!(voter.global().get_round(0), Some(prevotes(3)));
    assert_eq!(voter.global().height(), 3);
}

#[test]
fn finalized_block_is_handed_out() {
    let voters = VoterSet::new(vec![8, 9], 2).unwrap();
    let mut voter: Voter<u64, String, u64> = Voter::new(9, voters, (3, "three".to_string()));
    let commit = || FinalizedCommit {
        commits: vec![SignedCommit {
            commit: Precommit { target_hash: Some("four".to_string()), target_height: 4, round: 0 },
            signature: 1u64,
            id: 8u64,
        }],
        target_hash: "four".to_string(),
        target_number: 4,
    };
    let block = voter.close_round(5, Ok(commit())).unwrap();
    assert_eq!(block.round, 5);
    assert_eq!(block.hash, "four");
    assert_eq!(block.number, 4);
    assert_eq!(block.commit, commit());
    assert_eq!(voter.global().get_round(5), None);
}

#[test]
fn voter_set_needs_voters() {
    assert!(VoterSet::<u64>::new(vec![], 1).is_none());
    let voters = VoterSet::new(vec![5u64], 1).unwrap();
    assert_eq!(voters.threshold(), 1);
    assert_eq!(voters.get_proposer(0), 5);
    assert_eq!(voters.get_proposer(u64::MAX), 5);
    let voters = VoterSet::new(vec!["x", "y", "z"], 3).unwrap();
    assert_eq!(voters.get_proposer(0), "x");
    assert_eq!(voters.get_proposer(4), "y");
    assert_eq!(voters.get_proposer(8), "z");
}

#[test]
fn block_numbers_count_from_zero() {
    assert_eq!(<u64 as BlockNumberOps>::zero(), 0);
    assert_eq!(<u64 as BlockNumberOps>::one(), 1);
    assert!(BlockNumberOps::has_next(&0u64));
    assert!(BlockNumberOps::has_next(&(u64::MAX - 1)));
    assert!(!BlockNumberOps::has_next(&u64::MAX));
    assert_eq!(BlockNumberOps::as_usize(77u64), 77);
}

#[test]
fn messages_are_cloned_field_by_field() {
    let signed = SignedMessage {
        id: 3u64,
        message: Message::Proposal(proposal(Some(1))),
        signature: "s".to_string(),
    };
    assert_eq!(signed.clone(), signed);
    let prevote: Message<u64, String> = Message::Prevote(prevotes(1).remove(0));
    assert_eq!(prevote.clone(), prevote);
    let commit = SignedCommit {
        commit: Precommit { target_hash: Some("b".to_string()), target_height: 2u64, round: 1 },
        signature: 4u8,
        id: 5u64,
    };
    assert_eq!(commit.clone(), commit);
    let precommit: Message<u64, String> = Message::Precommit(commit.commit.clone());
    assert_eq!(precommit.clone(), precommit);
}
