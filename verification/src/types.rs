//! Socket options shared by the backends.

use vstd::prelude::*;

verus! {

/// Which traffic a capture sees.
#[derive(Clone, Copy, Debug, PartialEq, Eq)]
pub enum CaptureDir {
    In,
    Out,
    InOut,
}

/// How a socket attaches to the device.
#[derive(Clone, Copy, Debug, PartialEq, Eq)]
pub enum CaptureMode {
    Default,
    SkbMode,
    DrvMode,
    ZeroCopy,
}

/// Whether a socket receives, transmits or both.
#[derive(Clone, Copy, Debug, PartialEq, Eq)]
pub enum SocketMode {
    RxTx,
    RxOnly,
    TxOnly,
}

impl SocketMode {
    /// The suffix that names the mode in a port specification.
    pub fn suffix(&self) -> (s: &'static str)
        ensures
            *self is RxTx ==> s@ == ""@,
            *self is RxOnly ==> s@ == "/R"@,
            *self is TxOnly ==> s@ == "/T"@,
    {
        match self {
            SocketMode::RxTx => "",
            SocketMode::RxOnly => "/R",
            SocketMode::TxOnly => "/T",
        }
    }
}

/// The options a socket is opened with.
pub struct SocketOptions {
    pub numblocks: u32,
    pub numpackets: u32,
    pub packetsize: u32,
    pub timeout_ms: u32,
    pub dir: CaptureDir,
    pub capture: CaptureMode,
    pub mode: SocketMode,
    pub timestamp: bool,
    pub promisc: bool,
    pub rxhash: bool,
    pub tx_qdisc_bypass: bool,
    pub xdp_prog: Option<String>,
    pub xdp_prog_sec: Option<String>,
    pub xsk_map_name: Option<String>,
    pub reuse_maps: bool,
    pub pin_dir: Option<String>,
}

/// Socket statistics.
pub struct Stat {
    pub rx_packets: u64,
    pub tx_packets: u64,
    pub rx_dropped: u64,
    pub rx_if_dropped: u64,
    pub rx_invalid: u64,
    pub tx_invalid: u64,
    pub freeze: u64,
}

} // verus!
