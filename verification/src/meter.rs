//! What the packet meter decides apart from I/O: the port specification of
//! each of its sockets, and the IP addresses of an Ethernet frame, read by
//! `etherparse`.

use vstd::prelude::*;
use etherparse::{NetHeaders, PacketHeaders};
use crate::errors::Error;

verus! {

/// The source and destination addresses of an IP header.
#[derive(Clone, Copy, Debug, PartialEq, Eq)]
pub enum IpPair {
    V4 { source: [u8; 4], destination: [u8; 4] },
    V6 { source: [u8; 16], destination: [u8; 16] },
}

/// What the headers of a frame say of its addresses.
#[derive(Clone, Copy, Debug, PartialEq, Eq)]
pub enum FrameAddrs {
    /// The frame's headers cannot be read.
    Unreadable,
    /// The frame carries no IP header (none, or ARP).
    NoIp,
    /// The frame carries an IP header with these addresses.
    Ip(IpPair),
}

/// What `etherparse::PacketHeaders::from_ethernet_slice` reads of a frame's
/// addresses.
pub uninterp spec fn ethernet_addrs(frame: Seq<u8>) -> FrameAddrs;

/// `etherparse::PacketHeaders::from_ethernet_slice`: the addresses of the
/// frame's IPv4 or IPv6 header, if it has one.
#[verifier::external_body]
fn read_ethernet_addrs(frame: &[u8]) -> (r: FrameAddrs)
    ensures
        r == ethernet_addrs(frame@),
{
    match PacketHeaders::from_ethernet_slice(frame) {
        Err(_) => FrameAddrs::Unreadable,
        Ok(h) => match h.net {
            Some(NetHeaders::Ipv4(hdr, _)) => FrameAddrs::Ip(IpPair::V4 { source: hdr.source, destination: hdr.destination }),
            Some(NetHeaders::Ipv6(hdr, _)) => FrameAddrs::Ip(IpPair::V6 { source: hdr.source, destination: hdr.destination }),
            _ => FrameAddrs::NoIp,
        },
    }
}

/// The IP addresses of a frame whose headers can be read: `None` when it
/// carries no IP header.
pub fn ip_addrs(frame: &[u8]) -> (r: Option<IpPair>)
    requires
        ethernet_addrs(frame@) != FrameAddrs::Unreadable,
    ensures
        r == match ethernet_addrs(frame@) {
            FrameAddrs::Ip(p) => Some(p),
            _ => None::<IpPair>,
        },
{
    match read_ethernet_addrs(frame) {
        FrameAddrs::Ip(p) => Some(p),
        _ => None,
    }
}

/// The IP addresses of any frame: `Err(Unknown)` when its headers cannot be
/// read, else what `ip_addrs` gives.
pub fn frame_ip_addrs(frame: &[u8]) -> (r: Result<Option<IpPair>, Error>)
    ensures
        ethernet_addrs(frame@) == FrameAddrs::Unreadable ==> r == Err::<Option<IpPair>, Error>(Error::Unknown),
        ethernet_addrs(frame@) != FrameAddrs::Unreadable ==> r == Ok::<Option<IpPair>, Error>(match ethernet_addrs(
            frame@,
        ) {
            FrameAddrs::Ip(p) => Some(p),
            _ => None::<IpPair>,
        }),
{
    match read_ethernet_addrs(frame) {
        FrameAddrs::Unreadable => Err(Error::Unknown),
        _ => Ok(ip_addrs(frame)),
    }
}

/// The decimal digits of `n`, as ASCII bytes.
pub open spec fn decimal(n: nat) -> Seq<u8>
    decreases n,
{
    if n < 10 {
        seq![(48 + n) as u8]
    } else {
        decimal(n / 10).push((48 + n % 10) as u8)
    }
}

/// Appends the decimal digits of `n` to `v`.
fn push_decimal(v: &mut Vec<u8>, n: usize)
    ensures
        final(v)@ == old(v)@ + decimal(n as nat),
    decreases n,
{
    if n >= 10 {
        push_decimal(v, n / 10);
    }
    v.push(48 + (n % 10) as u8);
    proof {
        if n >= 10 {
            assert(final(v)@ =~= old(v)@ + decimal(n as nat)) by {
                assert(decimal(n as nat) == decimal((n / 10) as nat).push((48 + n % 10) as u8));
            }
        } else {
            assert(final(v)@ =~= old(v)@ + decimal(n as nat));
        }
    }
}

/// The port specification of socket `i` of a meter that opens `sockets`
/// sockets on interface `iface`: the interface itself for a single socket,
/// else the interface, a colon and the socket's number.
pub fn socket_portspec(iface: &[u8], sockets: usize, i: usize) -> (r: Vec<u8>)
    ensures
        sockets > 1 ==> r@ == iface@ + seq![58u8] + decimal(i as nat),
        sockets <= 1 ==> r@ == iface@,
{
    let mut v: Vec<u8> = Vec::new();
    let mut k: usize = 0;
    while k < iface.len()
        invariant
            k <= iface@.len(),
            v@ == iface@.take(k as int),
        decreases iface@.len() - k,
    {
        v.push(iface[k]);
        k = k + 1;
        proof {
            assert(v@ =~= iface@.take(k as int));
        }
    }
    proof {
        assert(iface@.take(iface@.len() as int) =~= iface@);
    }
    if sockets > 1 {
        v.push(58u8);
        push_decimal(&mut v, i);
        proof {
            assert(v@ =~= iface@ + seq![58u8] + decimal(i as nat));
        }
    }
    v
}

} // verus!
