//! Buffer descriptors and references for zero-copy packet handling.

use vstd::prelude::*;
use vstd::std_specs::convert::FromSpecImpl;
use vstd::std_specs::convert::FromSpec;

verus! {

/// Opaque descriptor of a buffer in a memory pool (an offset or an index).
#[derive(Clone, Copy, Debug, PartialEq, Eq)]
pub struct BufferDesc(pub usize);

/// Reference to a buffer, as some backends (netmap) name them.
#[derive(Clone, Copy, Debug, PartialEq, Eq)]
pub struct BufferRef(pub usize);

impl From<usize> for BufferDesc {
    fn from(val: usize) -> (r: Self) {
        BufferDesc(val)
    }
}

impl FromSpecImpl<usize> for BufferDesc {
    open spec fn obeys_from_spec() -> bool {
        true
    }

    open spec fn from_spec(v: usize) -> Self {
        BufferDesc(v)
    }
}

impl From<BufferDesc> for usize {
    fn from(val: BufferDesc) -> (r: usize) {
        val.0
    }
}

impl FromSpecImpl<BufferDesc> for usize {
    open spec fn obeys_from_spec() -> bool {
        true
    }

    open spec fn from_spec(v: BufferDesc) -> usize {
        v.0
    }
}

impl From<usize> for BufferRef {
    fn from(val: usize) -> (r: Self) {
        BufferRef(val)
    }
}

impl FromSpecImpl<usize> for BufferRef {
    open spec fn obeys_from_spec() -> bool {
        true
    }

    open spec fn from_spec(v: usize) -> Self {
        BufferRef(v)
    }
}

impl From<BufferRef> for usize {
    fn from(val: BufferRef) -> (r: usize) {
        val.0
    }
}

impl FromSpecImpl<BufferRef> for usize {
    open spec fn obeys_from_spec() -> bool {
        true
    }

    open spec fn from_spec(v: BufferRef) -> usize {
        v.0
    }
}

impl From<BufferRef> for BufferDesc {
    fn from(val: BufferRef) -> (r: Self) {
        BufferDesc(val.0)
    }
}

impl FromSpecImpl<BufferRef> for BufferDesc {
    open spec fn obeys_from_spec() -> bool {
        true
    }

    open spec fn from_spec(v: BufferRef) -> Self {
        BufferDesc(v.0)
    }
}

impl From<BufferDesc> for BufferRef {
    fn from(val: BufferDesc) -> (r: Self) {
        BufferRef(val.0)
    }
}

impl FromSpecImpl<BufferDesc> for BufferRef {
    open spec fn obeys_from_spec() -> bool {
        true
    }

    open spec fn from_spec(v: BufferDesc) -> Self {
        BufferRef(v.0)
    }
}

/// A descriptor and a reference converted into each other name the same
/// buffer, both ways.
pub proof fn law_desc_ref_round_trip(d: BufferDesc, r: BufferRef)
    ensures
        <BufferDesc as FromSpec<BufferRef>>::from_spec(<BufferRef as FromSpec<BufferDesc>>::from_spec(d)) == d,
        <BufferRef as FromSpec<BufferDesc>>::from_spec(<BufferDesc as FromSpec<BufferRef>>::from_spec(r)) == r,
{
}

} // verus!
