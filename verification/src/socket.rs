//! Rings of packet slots that a socket keeps in user space.

use vstd::prelude::*;
use std::collections::VecDeque;
use crate::errors::Error;

verus! {

/// Status of a free slot.
pub const RING_SLOT_FREE: u8 = 0;
/// Status of a slot that holds a packet.
pub const RING_SLOT_IN_USE: u8 = 1;
/// Status of a slot whose packet is being transmitted.
pub const RING_SLOT_IN_FLIGHT: u8 = 2;

/// Packet headers a slot can carry.
pub trait PkthdrTrait {}

/// The packet header of the netmap backend.
#[derive(Clone, Copy, Debug, PartialEq, Eq)]
pub struct NetmapPkthdr {
    pub len: u32,
    pub caplen: u32,
    pub buf_idx: u32,
}

impl PkthdrTrait for NetmapPkthdr {}

/// A slot: status, packet header, id, length and the packet bytes.
pub struct RingSlot<P: PkthdrTrait> {
    pub status: u8,
    pub packet_header: P,
    pub id: usize,
    pub len: usize,
    pub packet: Vec<u8>,
}

impl<P: PkthdrTrait> RingSlot<P> {
    pub fn packet_header(&self) -> (r: &P)
        ensures
            *r == self.packet_header,
    {
        &self.packet_header
    }

    /// Whether the slot is free.
    pub fn is_free(&self) -> (r: bool)
        ensures
            r == (self.status == RING_SLOT_FREE),
    {
        self.status == RING_SLOT_FREE
    }
}

/// Socket flavours.
pub struct TxOnly;

pub struct RxOnly;

pub struct RxTx;

pub trait Flavor {}

impl Flavor for TxOnly {}

impl Flavor for RxOnly {}

impl Flavor for RxTx {}

/// A bounded queue of slots: `push` adds at the head, `pop` takes from the
/// tail, the oldest.
pub struct NethunsRing<P: PkthdrTrait> {
    pub pktsize: usize,
    pub capacity: usize,
    pub rings: VecDeque<RingSlot<P>>,
}

impl<P: PkthdrTrait> NethunsRing<P> {
    pub open spec fn wf(&self) -> bool {
        self.rings@.len() <= self.capacity
    }

    /// An empty ring of `num_items` slots of `packet_size` bytes.
    pub fn new(num_items: usize, packet_size: usize) -> (r: Self)
        ensures
            r.wf(),
            r.capacity == num_items,
            r.pktsize == packet_size,
            r.rings@.len() == 0,
    {
        NethunsRing { pktsize: packet_size, capacity: num_items, rings: VecDeque::new() }
    }

    /// Takes the oldest slot.
    pub fn pop(&mut self) -> (r: Option<RingSlot<P>>)
        requires
            old(self).wf(),
        ensures
            final(self).wf(),
            final(self).capacity == old(self).capacity,
            old(self).rings@.len() == 0 ==> r is None && final(self).rings@ == old(self).rings@,
            old(self).rings@.len() > 0 ==> r == Some(old(self).rings@[0]) && final(self).rings@
                == old(self).rings@.drop_first(),
    {
        self.rings.pop_front()
    }

    /// Adds a slot at the head; a full ring gives it back.
    pub fn push(&mut self, slot: RingSlot<P>) -> (r: Result<(), RingSlot<P>>)
        requires
            old(self).wf(),
        ensures
            final(self).wf(),
            final(self).capacity == old(self).capacity,
            old(self).rings@.len() < old(self).capacity ==> r is Ok && final(self).rings@
                == old(self).rings@.push(slot),
            old(self).rings@.len() >= old(self).capacity ==> r == Err::<(), RingSlot<P>>(slot)
                && final(self).rings@ == old(self).rings@,
    {
        if self.rings.len() >= self.capacity {
            return Err(slot);
        }
        self.rings.push_back(slot);
        Ok(())
    }

    /// The oldest slot.
    pub fn peek_tail_slot(&self) -> (r: Option<&RingSlot<P>>)
        ensures
            self.rings@.len() == 0 ==> r is None,
            self.rings@.len() > 0 ==> r == Some(&self.rings@[0]),
    {
        if self.rings.len() == 0 {
            None
        } else {
            Some(&self.rings[0])
        }
    }

    /// The newest slot.
    pub fn peek_head_slot(&self) -> (r: Option<&RingSlot<P>>)
        ensures
            self.rings@.len() == 0 ==> r is None,
            self.rings@.len() > 0 ==> r == Some(&self.rings@[self.rings@.len() - 1]),
    {
        let n = self.rings.len();
        if n == 0 {
            None
        } else {
            Some(&self.rings[n - 1])
        }
    }
}

/// The rings of a socket, by the directions it works in.
pub enum Rings<P: PkthdrTrait> {
    RxOnly(NethunsRing<P>),
    TxOnly(NethunsRing<P>),
    RxTx(NethunsRing<P>, NethunsRing<P>),
}

impl<P: PkthdrTrait> Rings<P> {
    /// The TX ring, if the socket transmits.
    pub fn tx_ring(&self) -> (r: Result<&NethunsRing<P>, Error>)
        ensures
            match self {
                Rings::TxOnly(t) => r == Ok::<&NethunsRing<P>, Error>(t),
                Rings::RxTx(_, t) => r == Ok::<&NethunsRing<P>, Error>(t),
                Rings::RxOnly(_) => r == Err::<&NethunsRing<P>, Error>(Error::Other("Not a TxOnly ring")),
            },
    {
        match self {
            Rings::TxOnly(tx_ring) => Ok(tx_ring),
            Rings::RxTx(_, tx_ring) => Ok(tx_ring),
            _ => Err(Error::Other("Not a TxOnly ring")),
        }
    }

    /// The TX ring, to change it, if the socket transmits.
    pub fn tx_ring_mut(&mut self) -> (r: Result<&mut NethunsRing<P>, Error>)
        ensures
            match *old(self) {
                Rings::TxOnly(t) => r matches Ok(x) && *x == t && *final(self) == Rings::TxOnly(*final(x)),
                Rings::RxTx(q, t) => r matches Ok(x) && *x == t && *final(self) == Rings::RxTx(q, *final(x)),
                Rings::RxOnly(_) => r matches Err(e) && e == Error::Other("Not a TxOnly ring") && *final(self) == *old(self),
            },
    {
        match self {
            Rings::TxOnly(tx_ring) => Ok(tx_ring),
            Rings::RxTx(_, tx_ring) => Ok(tx_ring),
            _ => Err(Error::Other("Not a TxOnly ring")),
        }
    }

    /// The RX ring, if the socket receives.
    pub fn rx_ring(&self) -> (r: Result<&NethunsRing<P>, Error>)
        ensures
            match self {
                Rings::RxOnly(x) => r == Ok::<&NethunsRing<P>, Error>(x),
                Rings::RxTx(x, _) => r == Ok::<&NethunsRing<P>, Error>(x),
                Rings::TxOnly(_) => r == Err::<&NethunsRing<P>, Error>(Error::Other("Not a RxOnly ring")),
            },
    {
        match self {
            Rings::RxOnly(rx_ring) => Ok(rx_ring),
            Rings::RxTx(rx_ring, _) => Ok(rx_ring),
            _ => Err(Error::Other("Not a RxOnly ring")),
        }
    }

    /// The RX ring, to change it, if the socket receives.
    pub fn rx_ring_mut(&mut self) -> (r: Result<&mut NethunsRing<P>, Error>)
        ensures
            match *old(self) {
                Rings::RxOnly(x0) => r matches Ok(x) && *x == x0 && *final(self) == Rings::RxOnly(*final(x)),
                Rings::RxTx(x0, t) => r matches Ok(x) && *x == x0 && *final(self) == Rings::RxTx(*final(x), t),
                Rings::TxOnly(_) => r matches Err(e) && e == Error::Other("Not a RxOnly ring") && *final(self) == *old(self),
            },
    {
        match self {
            Rings::RxOnly(rx_ring) => Ok(rx_ring),
            Rings::RxTx(rx_ring, _) => Ok(rx_ring),
            _ => Err(Error::Other("Not a RxOnly ring")),
        }
    }
}

} // verus!
