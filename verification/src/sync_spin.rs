//! The plain spin lock family.

use vstd::prelude::*;

verus! {

/// The deadlock-prevention method of a plain spin lock: nothing is done on
/// entering or leaving the critical section.
#[derive(Copy, Clone, Debug, Default, Eq, Hash, Ord, PartialEq, PartialOrd)]
pub struct Spin {}

} // verus!
