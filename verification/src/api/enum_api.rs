//! One type for each role over all backends: sockets, their flags, their
//! per-packet metadata and their contexts.

use vstd::prelude::*;
use crate::api::context::Context;
use crate::api::metadata::{Metadata, MetadataType};

verus! {

/// A socket of any backend.
pub enum EnumSocket {
    Netmap(crate::netmap::Sock),
    AfXdp(crate::af_xdp::Sock),
    Dpdk(crate::dpdk::Sock),
}

/// The flags of any backend.
#[derive(Clone, Debug)]
pub enum EnumFlags {
    Netmap(crate::netmap::NetmapFlags),
    AfXdp(crate::af_xdp::AfXdpFlags),
    Dpdk(crate::dpdk::DpdkFlags),
    Pcap(crate::pcap::PcapFlags),
}

/// The per-packet metadata of any backend.
#[derive(Clone, Copy, Debug)]
pub enum EnumMetadata {
    Netmap(crate::netmap::Meta),
    AfXdp(crate::af_xdp::Meta),
    Dpdk(crate::dpdk::Meta),
    Pcap(crate::pcap::Meta),
}

/// The context of any backend.
#[derive(Clone, Copy, Debug)]
pub enum EnumContext {
    Netmap(crate::netmap::Ctx),
    AfXdp(crate::af_xdp::Ctx),
    Dpdk(crate::dpdk::Ctx),
}

impl EnumSocket {
    /// The socket's context.
    pub fn context(&self) -> (c: EnumContext)
        ensures
            match self {
                EnumSocket::Netmap(s) => c == EnumContext::Netmap(s.ctx),
                EnumSocket::AfXdp(s) => c == EnumContext::AfXdp(s.ctx),
                EnumSocket::Dpdk(s) => c == EnumContext::Dpdk(s.ctx),
            },
    {
        match self {
            EnumSocket::Netmap(s) => EnumContext::Netmap(s.ctx),
            EnumSocket::AfXdp(s) => EnumContext::AfXdp(s.ctx),
            EnumSocket::Dpdk(s) => EnumContext::Dpdk(s.ctx),
        }
    }
}

impl Metadata for EnumMetadata {
    fn into_enum(self) -> (m: MetadataType)
        ensures
            match self {
                EnumMetadata::Netmap(x) => m == MetadataType::Netmap(x),
                EnumMetadata::AfXdp(x) => m == MetadataType::AfXdp(x),
                EnumMetadata::Dpdk(x) => m == MetadataType::Dpdk(x),
                EnumMetadata::Pcap(x) => m == MetadataType::Pcap(x),
            },
    {
        match self {
            EnumMetadata::Netmap(x) => MetadataType::Netmap(x),
            EnumMetadata::AfXdp(x) => MetadataType::AfXdp(x),
            EnumMetadata::Dpdk(x) => MetadataType::Dpdk(x),
            EnumMetadata::Pcap(x) => MetadataType::Pcap(x),
        }
    }
}

impl Context for EnumContext {
    open spec fn id(&self) -> u32 {
        match self {
            EnumContext::Netmap(c) => c.id(),
            EnumContext::AfXdp(c) => c.id(),
            EnumContext::Dpdk(c) => c.id(),
        }
    }

    fn pool_id(&self) -> (r: u32) {
        match self {
            EnumContext::Netmap(c) => c.pool_id(),
            EnumContext::AfXdp(c) => c.pool_id(),
            EnumContext::Dpdk(c) => c.pool_id(),
        }
    }
}

} // verus!
