//! Per-packet metadata of the backends.

use vstd::prelude::*;

verus! {

/// Per-packet metadata of a backend.
pub trait Metadata: Sized {
    /// The metadata as a value of the unified enum.
    fn into_enum(self) -> MetadataType;
}

/// Metadata of any backend.
pub enum MetadataType {
    Netmap(crate::netmap::Meta),
    AfXdp(crate::af_xdp::Meta),
    Pcap(crate::pcap::Meta),
    Dpdk(crate::dpdk::Meta),
}

} // verus!
