//! Voters that exchange messages until they have finalized a chain.

use tendermint_voter::{
    Action, Event, Message, Round, SignedMessage, Step, Voter, VoterSet,
};

const GENESIS_HASH: &str = "genesis";
const CHAIN: [&str; 6] = [GENESIS_HASH, "A", "B", "C", "D", "E"];

type TestRound = Round<u64, &'static str, u64, u64>;
type TestVoter = Voter<u64, &'static str, u64>;

struct Node {
    id: u64,
    voter: TestVoter,
    round: TestRound,
    finalized: Vec<(&'static str, u64)>,
}

/// The block after `parent`, with its height.
fn block_after(parent: &str) -> (u64, &'static str) {
    let at = CHAIN.iter().position(|hash| *hash == parent).unwrap();
    (at as u64 + 1, CHAIN[at + 1])
}

impl Node {
    fn new(id: u64, voters: Vec<u64>, threshold: usize) -> Node {
        let voters = VoterSet::new(voters, threshold).unwrap();
        let voter = Voter::new(id, voters, (0, GENESIS_HASH));
        let round = voter.open_round();
        Node { id, voter, round, finalized: Vec::new() }
    }

    fn answer(&mut self, event: Event<u64, &'static str>) -> Action<u64, &'static str, u64, u64> {
        assert!(self.round.is_accepted(self.voter.global(), &event));
        self.voter.advance(&mut self.round, event)
    }

    /// Hands `event` to the round, performs what it asks for until it waits
    /// or is over, and returns what it sent.
    fn drive(&mut self, event: Event<u64, &'static str>) -> Vec<Message<u64, &'static str>> {
        let mut sent = Vec::new();
        let mut action = self.answer(event);
        loop {
            action = match action {
                Action::Propose { round, parent } => {
                    assert_eq!(round, 0);
                    let (target_height, target_hash) = block_after(parent);
                    self.answer(Event::Proposed { target_height, target_hash })
                }
                Action::Send(message) => {
                    sent.push(message);
                    self.answer(Event::Sent)
                }
                Action::Wait => return sent,
                Action::Finish(outcome) => {
                    let number = self.round.number();
                    if let Some(block) = self.voter.close_round(number, outcome) {
                        assert_eq!(block.round, 0);
                        assert_eq!(block.commit.target_hash, block.hash);
                        assert_eq!(block.commit.target_number, block.number);
                        self.finalized.push((block.hash, block.number));
                    }
                    return sent;
                }
            }
        }
    }
}

fn broadcast(nodes: &mut [Node], sent: Vec<(u64, Message<u64, &'static str>)>) {
    for (id, message) in sent {
        for node in nodes.iter_mut() {
            node.round.process_incoming(SignedMessage {
                id,
                message: message.clone(),
                signature: id,
            });
        }
    }
}

/// Runs one round of every node that is online.
fn run_round(nodes: &mut [Node]) {
    let mut sent = Vec::new();
    for node in nodes.iter_mut() {
        node.round = node.voter.open_round();
        for message in node.drive(Event::Started) {
            sent.push((node.id, message));
        }
    }
    loop {
        broadcast(nodes, sent);
        sent = Vec::new();
        let before: Vec<Step> = nodes.iter().map(|node| node.round.step()).collect();
        if before.iter().all(|step| *step == Step::Finished) {
            return;
        }
        for node in nodes.iter_mut() {
            for message in node.drive(Event::Polled { expired: false }) {
                sent.push((node.id, message));
            }
        }
        let after: Vec<Step> = nodes.iter().map(|node| node.round.step()).collect();
        if before == after {
            for node in nodes.iter_mut() {
                for message in node.drive(Event::Polled { expired: true }) {
                    sent.push((node.id, message));
                }
            }
        }
    }
}

fn run_until_finalized(nodes: &mut [Node]) {
    for _ in 0..20 {
        if nodes.iter().all(|node| node.voter.global().height() >= 5) {
            break;
        }
        run_round(nodes);
    }
    for node in nodes.iter() {
        assert_eq!(node.finalized, vec![("A", 1), ("B", 2), ("C", 3), ("D", 4), ("E", 5)]);
        for height in 0..6u64 {
            assert_eq!(node.voter.global().decided(&height), Some(&CHAIN[height as usize]));
        }
    }
}

#[test]
fn basic_test() {
    let local_id = 5;
    let mut nodes = vec![Node::new(local_id, vec![5], 1)];
    run_until_finalized(&mut nodes);
}

#[test]
fn consensus_test() {
    let voters_num = 4;
    let mut nodes: Vec<Node> =
        (0..voters_num).map(|id| Node::new(id, (0..voters_num).collect(), 3)).collect();
    run_until_finalized(&mut nodes);
}

#[test]
fn consensus_with_failed_node() {
    let voters_num = 4;
    let online_voters_num = 3;
    let mut nodes: Vec<Node> =
        (0..online_voters_num).map(|id| Node::new(id, (0..voters_num).collect(), 3)).collect();
    run_until_finalized(&mut nodes);
}

#[test]
fn without_a_quorum_nothing_is_finalized() {
    let mut nodes: Vec<Node> =
        (0..2).map(|id| Node::new(id, (0..4).collect(), 3)).collect();
    for _ in 0..3 {
        run_round(&mut nodes);
    }
    for node in nodes.iter() {
        assert_eq!(node.finalized, vec![]);
        assert_eq!(node.voter.global().height(), 0);
        assert_eq!(node.voter.global().locked_round(), None);
    }
}

#[test]
fn with_the_proposer_offline_all_vote_for_nothing() {
    let mut nodes: Vec<Node> =
        (1..4).map(|id| Node::new(id, (0..4).collect(), 3)).collect();
    run_round(&mut nodes);
    for node in nodes.iter() {
        assert_eq!(node.finalized, vec![]);
        assert_eq!(node.round.round_state().prevotes().len(), 3);
        assert!(node.round.round_state().prevotes().iter().all(|v| v.target_hash.is_none()));
        assert!(node.round.round_state().precommits().iter().all(|c| c.commit.target_hash.is_none()));
        // The quorum for no block locks the voter all the same.
        assert_eq!(node.voter.global().locked_round(), Some(0));
        assert_eq!(node.voter.global().locked_value(), None);
    }
}

#[test]
fn repeated_reordered_and_lost_messages_change_nothing() {
    let mut nodes: Vec<Node> =
        (0..4).map(|id| Node::new(id, (0..4).collect(), 3)).collect();
    for height in 1..4u64 {
        let mut sent = Vec::new();
        for node in nodes.iter_mut() {
            node.round = node.voter.open_round();
            for message in node.drive(Event::Started) {
                sent.push((node.id, message));
            }
        }
        while nodes.iter().any(|node| node.round.step() != Step::Finished) {
            // The latest comes first, voter 2 is heard twice, voter 3 not at all.
            sent.reverse();
            let twice: Vec<(u64, Message<u64, &'static str>)> =
                sent.iter().filter(|(id, _)| *id == 2).cloned().collect();
            sent.retain(|(id, _)| *id != 3);
            sent.extend(twice);
            broadcast(&mut nodes, sent);
            sent = Vec::new();
            for node in nodes.iter_mut() {
                for message in node.drive(Event::Polled { expired: true }) {
                    sent.push((node.id, message));
                }
            }
        }
        for node in nodes.iter() {
            assert_eq!(node.voter.global().height(), height);
            assert_eq!(node.finalized.last(), Some(&(CHAIN[height as usize], height)));
            assert_eq!(node.voter.global().locked_round(), None);
            assert_eq!(node.voter.global().valid_value(), None);
        }
    }
}
