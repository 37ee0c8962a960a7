//! TCP and UDP endpoints: their configuration and builders.
use vstd::prelude::*;

pub mod tcp;
pub mod udp;

verus! {

/// A queue size of at least one (`value.max(1)`).
pub open spec fn at_least_one(value: usize) -> usize {
    if value == 0 {
        1
    } else {
        value
    }
}

/// `value.max(1)`.
pub fn at_least_one_exec(value: usize) -> (r: usize)
    ensures
        r == at_least_one(value),
{
    if value == 0 {
        1
    } else {
        value
    }
}

} // verus!
