//! The messages that voters exchange.

use crate::value::{
    cloned_option, clones_exactly, copied, copied_option, lemma_copied, lemma_copied_again,
    lemma_option_copied_again,
};
use vstd::prelude::*;

verus! {

/// A block that the proposer of a round puts to the vote.
#[derive(Debug, PartialEq, Eq)]
pub struct Proposal<N, H> {
    pub target_hash: H,
    pub target_height: N,
    /// The round in which the block already had a quorum of prevotes, if any.
    pub valid_round: Option<u64>,
    pub round: u64,
}

/// A first vote: for a block, or for no block when `target_hash` is `None`.
#[derive(Debug, PartialEq, Eq)]
pub struct Prevote<N, H> {
    pub target_hash: Option<H>,
    pub target_height: N,
    pub round: u64,
}

/// A second vote: for a block, or for no block when `target_hash` is `None`.
#[derive(Debug, PartialEq, Eq)]
pub struct Precommit<N, H> {
    pub target_hash: Option<H>,
    pub target_height: N,
    pub round: u64,
}

/// What a voter broadcasts.
#[derive(Debug, PartialEq, Eq)]
pub enum Message<N, H> {
    Proposal(Proposal<N, H>),
    Prevote(Prevote<N, H>),
    Precommit(Precommit<N, H>),
}

/// A message with its sender and the sender's signature.
#[derive(Debug, PartialEq, Eq)]
pub struct SignedMessage<N, H, S, I> {
    pub id: I,
    pub message: Message<N, H>,
    pub signature: S,
}

/// A precommit with its sender and the sender's signature.
#[derive(Debug, PartialEq, Eq)]
pub struct SignedCommit<N, H, S, I> {
    pub commit: Precommit<N, H>,
    pub signature: S,
    pub id: I,
}

/// A finalized block and the precommits that finalized it.
#[derive(Debug, PartialEq, Eq)]
pub struct FinalizedCommit<N, H, S, I> {
    pub commits: Vec<SignedCommit<N, H, S, I>>,
    pub target_hash: H,
    pub target_number: N,
}

/// What a [`FinalizedCommit`] holds.
#[verifier::ext_equal]
pub struct FinalizedCommitView<N, H, S, I> {
    pub commits: Seq<SignedCommit<N, H, S, I>>,
    pub target_hash: H,
    pub target_number: N,
}

impl<N, H, S, I> View for FinalizedCommit<N, H, S, I> {
    type V = FinalizedCommitView<N, H, S, I>;

    open spec fn view(&self) -> FinalizedCommitView<N, H, S, I> {
        FinalizedCommitView {
            commits: self.commits@,
            target_hash: self.target_hash,
            target_number: self.target_number,
        }
    }
}

impl<N, H> Proposal<N, H> {
    /// The prevote of a voter that votes for the proposal or does not.
    pub open spec fn prevoted(self, endorsed: bool) -> Prevote<N, H> {
        Prevote {
            target_hash: if endorsed {
                Some(self.target_hash)
            } else {
                None
            },
            target_height: self.target_height,
            round: self.round,
        }
    }
}

impl<N, H: Clone> Proposal<N, H> {
    /// `other` is this proposal with a copy of its hash.
    pub open spec fn copied_to(self, other: Self) -> bool {
        &&& copied(self.target_hash, other.target_hash)
        &&& other.target_height == self.target_height
        &&& other.valid_round == self.valid_round
        &&& other.round == self.round
    }
}

impl<N, H: Clone> Prevote<N, H> {
    /// `other` is this prevote with a copy of its hash.
    pub open spec fn copied_to(self, other: Self) -> bool {
        &&& copied_option(self.target_hash, other.target_hash)
        &&& other.target_height == self.target_height
        &&& other.round == self.round
    }
}

impl<N, H: Clone> Precommit<N, H> {
    /// `other` is this precommit with a copy of its hash.
    pub open spec fn copied_to(self, other: Self) -> bool {
        &&& copied_option(self.target_hash, other.target_hash)
        &&& other.target_height == self.target_height
        &&& other.round == self.round
    }
}

impl<N, H: Clone> Message<N, H> {
    /// `other` is this message with a copy of its hash.
    pub open spec fn copied_to(self, other: Self) -> bool {
        match (self, other) {
            (Message::Proposal(a), Message::Proposal(b)) => a.copied_to(b),
            (Message::Prevote(a), Message::Prevote(b)) => a.copied_to(b),
            (Message::Precommit(a), Message::Precommit(b)) => a.copied_to(b),
            _ => false,
        }
    }
}

impl<N, H: Clone, S: Clone, I: Clone> SignedCommit<N, H, S, I> {
    /// `other` is this precommit with copies of its hash, signature and
    /// sender.
    pub open spec fn copied_to(self, other: Self) -> bool {
        &&& self.commit.copied_to(other.commit)
        &&& copied(self.signature, other.signature)
        &&& copied(self.id, other.id)
    }
}

/// `other` holds the same prevotes, in the same order, with copies of their
/// hashes.
pub open spec fn prevotes_copied<N, H: Clone>(
    prevotes: Seq<Prevote<N, H>>,
    other: Seq<Prevote<N, H>>,
) -> bool {
    &&& other.len() == prevotes.len()
    &&& forall|i: int| 0 <= i < prevotes.len() ==> (#[trigger] prevotes[i]).copied_to(other[i])
}

impl<N, H: Clone, S: Clone, I: Clone> FinalizedCommitView<N, H, S, I> {
    /// `other` is the same block with copies of the hashes, signatures and
    /// senders.
    pub open spec fn copied_to(self, other: Self) -> bool {
        &&& other.commits.len() == self.commits.len()
        &&& forall|i: int|
            0 <= i < self.commits.len() ==> (#[trigger] self.commits[i]).copied_to(other.commits[i])
        &&& copied(self.target_hash, other.target_hash)
        &&& other.target_number == self.target_number
    }
}

impl<N: Copy, H: Clone> Clone for Proposal<N, H> {
    fn clone(&self) -> (r: Self)
        ensures
            cloned(self.target_hash, r.target_hash),
            r.target_height == self.target_height,
            r.valid_round == self.valid_round,
            r.round == self.round,
    {
        Proposal {
            target_hash: self.target_hash.clone(),
            target_height: self.target_height,
            valid_round: self.valid_round,
            round: self.round,
        }
    }
}

impl<N: Copy, H: Clone> Clone for Prevote<N, H> {
    fn clone(&self) -> (r: Self)
        ensures
            cloned_option(self.target_hash, r.target_hash),
            r.target_height == self.target_height,
            r.round == self.round,
    {
        Prevote {
            target_hash: self.target_hash.clone(),
            target_height: self.target_height,
            round: self.round,
        }
    }
}

impl<N: Copy, H: Clone> Clone for Precommit<N, H> {
    fn clone(&self) -> (r: Self)
        ensures
            cloned_option(self.target_hash, r.target_hash),
            r.target_height == self.target_height,
            r.round == self.round,
    {
        Precommit {
            target_hash: self.target_hash.clone(),
            target_height: self.target_height,
            round: self.round,
        }
    }
}

impl<N: Copy, H: Clone> Clone for Message<N, H> {
    fn clone(&self) -> (r: Self)
        ensures
            match (*self, r) {
                (Message::Proposal(a), Message::Proposal(b)) => cloned(a, b),
                (Message::Prevote(a), Message::Prevote(b)) => cloned(a, b),
                (Message::Precommit(a), Message::Precommit(b)) => cloned(a, b),
                _ => false,
            },
    {
        match self {
            Message::Proposal(proposal) => Message::Proposal(proposal.clone()),
            Message::Prevote(prevote) => Message::Prevote(prevote.clone()),
            Message::Precommit(precommit) => Message::Precommit(precommit.clone()),
        }
    }
}

impl<N: Copy, H: Clone, S: Clone, I: Clone> Clone for SignedMessage<N, H, S, I> {
    fn clone(&self) -> (r: Self)
        ensures
            cloned(self.id, r.id),
            cloned(self.message, r.message),
            cloned(self.signature, r.signature),
    {
        SignedMessage {
            id: self.id.clone(),
            message: self.message.clone(),
            signature: self.signature.clone(),
        }
    }
}

impl<N: Copy, H: Clone, S: Clone, I: Clone> Clone for SignedCommit<N, H, S, I> {
    fn clone(&self) -> (r: Self)
        ensures
            cloned(self.commit, r.commit),
            cloned(self.signature, r.signature),
            cloned(self.id, r.id),
    {
        SignedCommit {
            commit: self.commit.clone(),
            signature: self.signature.clone(),
            id: self.id.clone(),
        }
    }
}

/// A clone of a prevote is a copy of it.
pub(crate) proof fn lemma_prevote_copied<N: Copy, H: Clone>(a: Prevote<N, H>, b: Prevote<N, H>)
    requires
        cloned(a, b),
    ensures
        a.copied_to(b),
{
    if a.target_hash is Some {
        lemma_copied(a.target_hash->0);
    }
    lemma_option_copied_again(a.target_hash, a.target_hash, b.target_hash);
}

/// A clone of a copy of a precommit is a copy of it.
pub(crate) proof fn lemma_precommit_copied_again<N: Copy, H: Clone>(
    a: Precommit<N, H>,
    b: Precommit<N, H>,
    c: Precommit<N, H>,
)
    requires
        a.copied_to(b),
        cloned(b, c),
    ensures
        a.copied_to(c),
{
    lemma_option_copied_again(a.target_hash, b.target_hash, c.target_hash);
}

/// A clone of a signed precommit is a copy of it.
pub(crate) proof fn lemma_commit_copied<N: Copy, H: Clone, S: Clone, I: Clone>(
    a: SignedCommit<N, H, S, I>,
    b: SignedCommit<N, H, S, I>,
)
    requires
        cloned(a, b),
    ensures
        a.copied_to(b),
{
    if a.commit.target_hash is Some {
        lemma_copied(a.commit.target_hash->0);
    }
    lemma_precommit_copied_again(a.commit, a.commit, b.commit);
    lemma_copied(a.signature);
    lemma_copied_again(a.signature, a.signature, b.signature);
    lemma_copied(a.id);
    lemma_copied_again(a.id, a.id, b.id);
}

/// Prevotes are cloned exactly where their hashes are.
pub(crate) proof fn lemma_prevotes_clone_exactly<N: Copy, H: Clone>()
    requires
        clones_exactly::<H>(),
    ensures
        clones_exactly::<Prevote<N, H>>(),
{
}

/// Signed precommits are cloned exactly where their hashes, signatures and
/// senders are.
pub(crate) proof fn lemma_commits_clone_exactly<N: Copy, H: Clone, S: Clone, I: Clone>()
    requires
        clones_exactly::<H>(),
        clones_exactly::<S>(),
        clones_exactly::<I>(),
    ensures
        clones_exactly::<Precommit<N, H>>(),
        clones_exactly::<SignedCommit<N, H, S, I>>(),
{
}

} // verus!
