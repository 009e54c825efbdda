//! Branch-prediction hints.

use vstd::prelude::*;

verus! {

/// Hints that the condition is usually true; returns it unchanged.
pub fn likely(b: bool) -> (r: bool)
    ensures
        r == b,
{
    b
}

/// Hints that the condition is usually false; returns it unchanged.
pub fn unlikely(b: bool) -> (r: bool)
    ensures
        r == b,
{
    b
}

} // verus!
