//! The decisions of a Tendermint voter.
//!
//! A [`Voter`] goes through one [`Round`] after another. A round is a machine:
//! it takes in the messages that other voters send, and answers each
//! [`Event`] with the [`Action`] that follows from what has come in. Whoever
//! drives it sends the messages, asks for blocks and measures the time.
//!
//! The contracts say what each answer is. [`step_laws`] says field by field what
//! each step does, [`state_laws`] what the voter keeps, takes in, copies and
//! compares, and [`laws`] what holds of whole rounds, of one round after another
//! and of several voters.

pub mod fmt;
pub mod global;
pub mod laws;
pub mod messages;
pub mod number;
pub mod round;
pub mod round_state;
pub mod state_laws;
pub mod step_laws;
pub mod value;
pub mod voter;
pub mod voters;

pub use global::{CurrentState, GlobalState, GlobalView};
pub use messages::{
    FinalizedCommit, FinalizedCommitView, Message, Precommit, Prevote, Proposal, SignedCommit,
    SignedMessage,
};
pub use number::BlockNumberOps;
pub use round::{
    Action, ActionView, Event, Round, RoundView, Step, Transition, ROUND_PAUSE_MILLIS, WAIT_MILLIS,
};
pub use round_state::{RoundState, RoundStateView};
pub use voter::{Finalization, Voter};
pub use voters::{VoterSet, VoterSetView};
