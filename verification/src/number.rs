//! Block numbers.

use core::ops::{Add, Sub};
use vstd::laws_cmp::obeys_cmp;
use vstd::laws_eq::obeys_concrete_eq;
use vstd::prelude::*;
use vstd::std_specs::ops::{AddSpec, SubSpec};

verus! {

/// Arithmetic necessary for a block number.
pub trait BlockNumberOps: crate::fmt::Debug + Copy + Ord + Add<Output = Self> + Sub<Output = Self> {
    /// The natural number that a block number stands for.
    spec fn number(self) -> nat;

    /// The block number that stands for zero.
    spec fn zero_spec() -> Self;

    /// The block number that stands for one.
    spec fn one_spec() -> Self;

    /// The block number zero.
    fn zero() -> (r: Self)
        ensures
            r == Self::zero_spec(),
    ;

    /// The block number one.
    fn one() -> (r: Self)
        ensures
            r == Self::one_spec(),
    ;

    /// Whether one can be added.
    fn has_next(&self) -> (r: bool)
        ensures
            r == self.add_req(Self::one_spec()),
    ;

    /// The low bits of the number, as many as a `usize` holds.
    fn as_usize(self) -> (r: usize)
        ensures
            r as nat == self.number() % (usize::MAX as nat + 1),
    ;

    /// Block numbers are ordered, compare, add and subtract as the natural
    /// numbers that they stand for.
    proof fn lawful()
        ensures
            obeys_cmp::<Self>(),
            obeys_concrete_eq::<Self>(),
            Self::obeys_add_spec(),
            Self::obeys_sub_spec(),
            Self::zero_spec().number() == 0,
            Self::one_spec().number() == 1,
            forall|a: Self, b: Self| a.number() == b.number() ==> a == b,
            forall|a: Self, b: Self| #[trigger]
                a.add_req(b) ==> a.add_spec(b).number() == a.number() + b.number(),
            forall|a: Self, b: Self| #[trigger]
                a.sub_req(b) ==> a.sub_spec(b).number() == a.number() - b.number(),
    ;
}

/// One can be added to `n`.
pub open spec fn has_successor<N: BlockNumberOps>(n: N) -> bool {
    n.add_req(N::one_spec())
}

/// The block number after `n`.
pub open spec fn successor<N: BlockNumberOps>(n: N) -> N {
    n.add_spec(N::one_spec())
}

/// The number of the successor is one more.
pub proof fn lemma_successor<N: BlockNumberOps>(n: N)
    requires
        has_successor(n),
    ensures
        successor(n).number() == n.number() + 1,
        successor(n) != n,
{
    N::lawful();
}

/// `num::zero` at `u64`, which is the additive identity of `u64`: 0.
#[verifier::external_body]
fn num_zero() -> (r: u64)
    ensures
        r == 0,
{
    num::zero()
}

/// `num::one` at `u64`, which is the multiplicative identity of `u64`: 1.
#[verifier::external_body]
fn num_one() -> (r: u64)
    ensures
        r == 1,
{
    num::one()
}

impl BlockNumberOps for u64 {
    open spec fn number(self) -> nat {
        self as nat
    }

    open spec fn zero_spec() -> u64 {
        0
    }

    open spec fn one_spec() -> u64 {
        1
    }

    fn zero() -> (r: u64) {
        num_zero()
    }

    fn one() -> (r: u64) {
        num_one()
    }

    fn has_next(&self) -> (r: bool) {
        *self < u64::MAX
    }

    fn as_usize(self) -> (r: usize) {
        proof {
            if usize::BITS == 32 {
                assert(usize::BITS == 32 ==> self as usize == self % 0x1_0000_0000u64)
                    by (bit_vector);
                assert(usize::MAX as nat + 1 == 0x1_0000_0000);
            } else {
                assert(usize::MAX as nat + 1 == 0x1_0000_0000_0000_0000);
                assert(self as nat % 0x1_0000_0000_0000_0000 == self as nat);
            }
        }
        self as usize
    }

    proof fn lawful() {
    }
}

} // verus!
