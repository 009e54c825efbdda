//! A group of sixteen buffer indexes, the unit in which producers hand
//! indexes over to the consumer (the plain-array form, without SIMD).

use vstd::prelude::*;

verus! {

/// Sixteen `usize` lanes.
pub type SimdUsize16 = [usize; 16];

/// A group from an array.
pub fn from_array(array: [usize; 16]) -> (s: SimdUsize16)
    ensures
        s@ == array@,
{
    array
}

/// The array of a group.
pub fn to_array(simd: SimdUsize16) -> (a: [usize; 16])
    ensures
        a@ == simd@,
{
    simd
}

/// The group of sixteen zeros.
pub fn zero() -> (s: SimdUsize16)
    ensures
        s@ == Seq::new(16, |i: int| 0usize),
{
    let s: SimdUsize16 = [0, 0, 0, 0, 0, 0, 0, 0, 0, 0, 0, 0, 0, 0, 0, 0];
    proof {
        assert(s@ =~= Seq::new(16, |i: int| 0usize));
    }
    s
}

} // verus!
