# tendermint_voter

The decisions of a Tendermint voter, written in Rust and verified with Verus.

A voter goes through one round after another. In a round the proposer proposes
a block, every voter prevotes on it, precommits once a quorum of prevotes has
come in, and finalizes the block once a quorum of precommits has come in. A
voter that precommits to a block locks on it and proposes it again when its turn
comes, until a block is finalized. Each
wait ends after a second at most, with a vote for no block or with a round that
finalizes nothing.

- `src/` is the library. `Voter`, `Round`, `RoundState` and `GlobalState` hold
  the state; `Round::advance` answers an event with the next action. The
  contracts say what each answer is, and `laws.rs` what holds of whole rounds,
  of one round after another and of several voters.
- `tests/` runs single rounds step by step and whole networks of voters.
- `app/` drives a voter on tokio: it sends the messages, asks for blocks and
  measures the time.

Two things are choices of this library: the voters propose in turn, in the
order in which they are given (`VoterSetView::proposer`), and a quorum is as
many votes as the voter set is told that it takes. Hashes, signatures and voter
ids can be of any type that can be cloned and compared. The contracts say what is
copied and compared, and are exact where a clone is the value itself and `==`
tells whether two values are the same (`value.rs`).
