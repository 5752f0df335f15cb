//! Formatting bounds that need no standard library.

use vstd::prelude::*;

verus! {

/// The bound that stands for "can be shown in a log": every type meets it.
pub trait Debug {

}

impl<T> Debug for T {

}

} // verus!
