//! Errors of the socket operations.

use vstd::prelude::*;

verus! {

/// An operating-system error number.
#[derive(Clone, Copy, Debug, PartialEq, Eq)]
pub struct OsError(pub i32);

/// Why reading a capture failed.
#[derive(Clone, Copy, Debug, PartialEq, Eq)]
pub enum PcapFailure {
    /// The capture holds no more packets.
    NoMorePackets,
    /// The capture ends inside a block.
    Incomplete,
    /// The bytes are not a block of the capture's format.
    Malformed,
}

/// What can go wrong when receiving, sending or setting up a socket.
#[derive(Clone, Copy, Debug, PartialEq, Eq)]
pub enum Error {
    /// No packet was received.
    NoPacket,
    /// No buffer was free.
    NoMemory,
    /// The packet does not fit in a buffer; holds its length.
    TooBigPacket(usize),
    /// The operating system refused; holds the error number.
    Generic(OsError),
    /// A backend-specific failure, described.
    Other(&'static str),
    /// Reading a capture failed.
    Pcap(PcapFailure),
    Unknown,
}

impl Error {
    /// The error's message, for the variants whose message is fixed.
    pub fn message(&self) -> (s: &'static str)
        ensures
            *self is NoPacket ==> s@ == "Can't receive packet"@,
            *self is NoMemory ==> s@ == "Can't allocate memory"@,
            *self is TooBigPacket ==> s@ == "Too big packet"@,
            *self is Generic ==> s@ == "os error"@,
            (*self matches Error::Other(m) ==> s@ == m@),
            *self is Pcap ==> s@ == "pcap error"@,
            *self is Unknown ==> s@ == "unknown error"@,
    {
        match self {
            Error::NoPacket => "Can't receive packet",
            Error::NoMemory => "Can't allocate memory",
            Error::TooBigPacket(_) => "Too big packet",
            Error::Generic(_) => "os error",
            Error::Other(m) => m,
            Error::Pcap(_) => "pcap error",
            Error::Unknown => "unknown error",
        }
    }
}

} // verus!
