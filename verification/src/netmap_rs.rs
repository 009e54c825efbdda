//! The first netmap binding: rings reached through the port's interface,
//! their iteration, and filling a TX slot.

use vstd::prelude::*;
use crate::errors::Error;
use crate::netmap_ctx::{ring_next, RawRing};

pub use crate::netmap_ctx::SlotData;

verus! {

/// The open port: the rings it was bound to.
#[derive(Clone, Copy, Debug)]
pub struct InnerPort {
    pub first_tx_ring: u16,
    pub last_tx_ring: u16,
    pub first_rx_ring: u16,
    pub last_rx_ring: u16,
}

impl InnerPort {
    pub fn first_tx_ring(&self) -> (r: u16)
        ensures
            r == self.first_tx_ring,
    {
        self.first_tx_ring
    }

    pub fn last_tx_ring(&self) -> (r: u16)
        ensures
            r == self.last_tx_ring,
    {
        self.last_tx_ring
    }

    pub fn first_rx_ring(&self) -> (r: u16)
        ensures
            r == self.first_rx_ring,
    {
        self.first_rx_ring
    }

    pub fn last_rx_ring(&self) -> (r: u16)
        ensures
            r == self.last_rx_ring,
    {
        self.last_rx_ring
    }
}

/// The port's interface: ring counts and ring offsets.
#[derive(Clone, Debug)]
pub struct Interface {
    pub ni_tx_rings: u32,
    pub ni_rx_rings: u32,
    pub ni_host_tx_rings: u32,
    pub ring_ofs: Vec<i64>,
}

/// A slot of a ring.
#[derive(Clone, Copy, Debug, PartialEq, Eq)]
pub struct Slot {
    pub inner: SlotData,
}

impl Slot {
    /// Applies `f` to the slot's fields.
    pub fn update<F: FnOnce(SlotData) -> SlotData>(&mut self, f: F)
        requires
            f.requires((old(self).inner,)),
        ensures
            f.ensures((old(self).inner,), final(self).inner),
    {
        let slot_data = self.inner;
        let new_data = f(slot_data);
        self.inner = new_data;
    }
}

/// A ring of the port, with the interface it belongs to.
pub struct Ring {
    pub ring: RawRing,
    pub interface: Interface,
}

/// Iteration over the slots of a ring: each step takes the slot at `head`.
pub struct RingIter {
    pub ring: Ring,
}

impl Ring {
    /// An iterator over the ring's available slots.
    pub fn iter(self) -> (it: RingIter)
        ensures
            it.ring == self,
    {
        RingIter { ring: self }
    }

    pub fn num_slots(&self) -> (r: u32)
        ensures
            r == self.ring.num_slots,
    {
        self.ring.num_slots
    }

    /// The slots of the ring.
    pub fn slot_slice(&self) -> (r: &[crate::netmap_ctx::RawSlot])
        ensures
            r@ == self.ring.slot@,
    {
        self.ring.slot.as_slice()
    }

    /// The interface the ring belongs to.
    pub fn interface(&self) -> (r: &Interface)
        ensures
            *r == self.interface,
    {
        &self.interface
    }
}

impl RingIter {
    /// The next slot and where its buffer starts (an offset from the ring)
    /// and how long it is; `None` once `head` has reached `tail`.
    pub fn next(&mut self) -> (r: Option<(crate::netmap_ctx::RawSlot, i64, usize)>)
        requires
            old(self).ring.ring.wf(),
            forall|i: int| 0 <= i < old(self).ring.ring.num_slots ==> i64::MIN <= old(self).ring.ring.buf_ofs
                + (#[trigger] old(self).ring.ring.slot@[i]).inner.buf_idx * old(self).ring.ring.nr_buf_size <= i64::MAX,
        ensures
            final(self).ring.ring.wf(),
            final(self).ring.interface == old(self).ring.interface,
            final(self).ring.ring.slot@ == old(self).ring.ring.slot@,
            final(self).ring.ring.tail == old(self).ring.ring.tail,
            match r {
                Some((s, off, size)) => {
                    let h = old(self).ring.ring.head;
                    &&& h != old(self).ring.ring.tail
                    &&& s == old(self).ring.ring.slot@[h as int]
                    &&& off == old(self).ring.ring.buf_ofs + s.inner.buf_idx * old(self).ring.ring.nr_buf_size
                    &&& size == old(self).ring.ring.nr_buf_size
                    &&& final(self).ring.ring.head == ring_next(h, old(self).ring.ring.num_slots)
                    &&& final(self).ring.ring.cur == final(self).ring.ring.head
                },
                None => old(self).ring.ring.head == old(self).ring.ring.tail && *final(self) == *old(self),
            },
    {
        match self.ring.ring.next_slot() {
            None => None,
            Some(idx) => {
                let s = self.ring.ring.slot[idx as usize];
                let i = s.inner.buf_idx as i128;
                let size = self.ring.ring.nr_buf_size as i128;
                assert(0 <= i * size <= 0xffff_ffff * 0xffff_ffff) by (nonlinear_arith)
                    requires
                        0 <= i <= 0xffff_ffff,
                        0 <= size <= 0xffff_ffff,
                ;
                let off = self.ring.ring.buf_ofs as i128 + i * size;
                proof {
                    let r0 = old(self).ring.ring;
                    assert(s == r0.slot@[idx as int]);
                    assert(i64::MIN <= r0.buf_ofs + (r0.slot@[idx as int]).inner.buf_idx * r0.nr_buf_size
                        <= i64::MAX);
                }
                Some((s, off as i64, self.ring.ring.nr_buf_size as usize))
            },
        }
    }
}

/// A TX slot being filled, with the bytes of its buffer.
pub struct TxBuf {
    pub slot: Slot,
    pub buf: Vec<u8>,
}

impl TxBuf {
    /// Copies `packet` to the start of the buffer and sets the slot's length;
    /// a packet longer than the buffer is refused.
    pub fn write(&mut self, packet: &[u8]) -> (r: Result<(), Error>)
        ensures
            packet@.len() > old(self).buf@.len() ==> r == Err::<(), Error>(Error::Other("Packet too big"))
                && *final(self) == *old(self),
            packet@.len() <= old(self).buf@.len() ==> {
                &&& r is Ok
                &&& final(self).buf@ == packet@ + old(self).buf@.skip(packet@.len() as int)
                &&& final(self).slot.inner == (SlotData { len: packet@.len() as u16, ..old(self).slot.inner })
            },
    {
        if packet.len() > self.buf.len() {
            return Err(Error::Other("Packet too big"));
        }
        let mut i: usize = 0;
        while i < packet.len()
            invariant
                packet@.len() <= old(self).buf@.len(),
                self.buf@.len() == old(self).buf@.len(),
                self.slot == old(self).slot,
                i <= packet@.len(),
                self.buf@ == packet@.take(i as int) + old(self).buf@.skip(i as int),
            decreases packet@.len() - i,
        {
            self.buf.set(i, packet[i]);
            i = i + 1;
            proof {
                assert(self.buf@ =~= packet@.take(i as int) + old(self).buf@.skip(i as int));
            }
        }
        proof {
            assert(packet@.take(packet@.len() as int) =~= packet@);
        }
        let len = packet.len() as u16;
        self.slot.update(|x: SlotData| -> (y: SlotData)
            ensures
                y == (SlotData { len, ..x }),
            { SlotData { len, ..x } });
        Ok(())
    }
}

} // verus!
