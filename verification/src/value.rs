//! What the contracts expect of the values that messages carry.
//!
//! Hashes, signatures and voter ids are opaque to the voter: it only copies
//! them with `Clone` and compares them with `==`. Whatever these two do, the
//! contracts say which values are copied and compared, and what follows from
//! each result. Where a copy is the value itself, and a comparison tells
//! whether two values are the same, the contracts are exact.

use vstd::prelude::*;
use vstd::std_specs::cmp::PartialEqSpec;

verus! {

/// A clone of a value is that value.
pub open spec fn clones_exactly<T: Clone>() -> bool {
    forall|a: T, b: T| #[trigger] cloned(a, b) ==> a == b
}

/// Two values compare equal exactly when they are the same value.
pub open spec fn compares_exactly<T: PartialEq>() -> bool {
    &&& T::obeys_eq_spec()
    &&& forall|a: T, b: T| #[trigger] a.eq_spec(&b) <==> a == b
}

/// `b` is what cloning `a` may give.
pub open spec fn cloned_option<T: Clone>(a: Option<T>, b: Option<T>) -> bool {
    match (a, b) {
        (Some(x), Some(y)) => cloned(x, y),
        (None, None) => true,
        _ => false,
    }
}

/// Each of the values is what cloning the one before may give.
pub open spec fn clone_chain<T: Clone>(chain: Seq<T>) -> bool {
    forall|k: int| 0 <= k < chain.len() - 1 ==> cloned(#[trigger] chain[k], chain[k + 1])
}

/// `b` is what cloning `a`, cloning the clone and so on may give.
pub open spec fn copied<T: Clone>(a: T, b: T) -> bool {
    exists|chain: Seq<T>| #[trigger]
        clone_chain(chain) && chain.len() > 0 && chain.first() == a && chain.last() == b
}

/// `b` is a copy of `a`, which may be none.
pub open spec fn copied_option<T: Clone>(a: Option<T>, b: Option<T>) -> bool {
    match (a, b) {
        (Some(x), Some(y)) => copied(x, y),
        (None, None) => true,
        _ => false,
    }
}

/// `r` is what comparing `a` with `b` may give.
pub open spec fn compared<T: PartialEq>(a: T, b: T, r: bool) -> bool {
    call_ensures(<T as PartialEq>::eq, (&a, &b), r)
}

/// Where clones are exact, a copy of a value is that value.
pub proof fn law_copies_are_exact<T: Clone>(a: T, b: T)
    requires
        clones_exactly::<T>(),
        copied(a, b),
    ensures
        a == b,
{
    let chain = choose|chain: Seq<T>| #[trigger]
        clone_chain(chain) && chain.len() > 0 && chain.first() == a && chain.last() == b;
    lemma_exact_chain(chain);
}

/// Where clones are exact, a chain of clones ends where it starts.
proof fn lemma_exact_chain<T: Clone>(chain: Seq<T>)
    requires
        clones_exactly::<T>(),
        clone_chain(chain),
        chain.len() > 0,
    ensures
        chain.first() == chain.last(),
    decreases chain.len(),
{
    if chain.len() > 1 {
        let shorter = chain.drop_last();
        assert forall|k: int| 0 <= k < shorter.len() - 1 implies cloned(
            #[trigger] shorter[k],
            shorter[k + 1],
        ) by {
            assert(cloned(chain[k], chain[k + 1]));
        }
        lemma_exact_chain(shorter);
        assert(cloned(chain[chain.len() - 2], chain[chain.len() - 2 + 1]));
    }
}

/// A value is a copy of itself.
pub(crate) proof fn lemma_copied<T: Clone>(a: T)
    ensures
        copied(a, a),
{
    let chain = seq![a];
    assert(clone_chain(chain));
}

/// A clone of a copy is a copy.
pub(crate) proof fn lemma_copied_again<T: Clone>(a: T, b: T, c: T)
    requires
        copied(a, b),
        cloned(b, c),
    ensures
        copied(a, c),
{
    let chain = choose|chain: Seq<T>| #[trigger]
        clone_chain(chain) && chain.len() > 0 && chain.first() == a && chain.last() == b;
    let longer = chain.push(c);
    assert forall|k: int| 0 <= k < longer.len() - 1 implies cloned(
        #[trigger] longer[k],
        longer[k + 1],
    ) by {
        if k < chain.len() - 1 {
            assert(cloned(chain[k], chain[k + 1]));
        }
    }
    assert(clone_chain(longer));
}

/// A clone of a copy is a copy, and none stays none.
pub(crate) proof fn lemma_option_copied_again<T: Clone>(a: Option<T>, b: Option<T>, c: Option<T>)
    requires
        copied_option(a, b),
        cloned_option(b, c),
    ensures
        copied_option(a, c),
{
    if a is Some {
        lemma_copied_again(a->0, b->0, c->0);
    }
}

/// Whether `a` and `b` compare equal.
pub(crate) fn equals<T: PartialEq>(a: &T, b: &T) -> (r: bool)
    ensures
        compared(*a, *b, r),
        compares_exactly::<T>() ==> r == (*a == *b),
{
    *a == *b
}

/// A clone of `value`.
pub(crate) fn copy_of<T: Clone>(value: &T) -> (r: T)
    ensures
        cloned(*value, r),
        clones_exactly::<T>() ==> r == *value,
{
    let r = value.clone();
    assert(cloned(*value, r));
    r
}

} // verus!
