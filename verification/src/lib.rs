//! nethuns-rs: a packet I/O library over several backends (AF_XDP, netmap,
//! DPDK, pcap), with the rings, buffer pools and channels they share
//! verified.

pub mod af_xdp;
pub mod api;
pub mod capvec;
pub mod dpdk;
pub mod errors;
pub mod meter;
pub mod fake_refcell;
pub mod mpsc;
pub mod netmap;
pub mod netmap_ctx;
pub mod pcap;
pub mod types;
pub mod unsafe_refcell;
pub mod netmap_rs;
pub mod socket;
pub mod spsc;
pub mod strategy;
