//! The netmap backend: its context and the receive path of its socket.
//!
//! A netmap socket receives zero-copy: the buffer of a received slot becomes
//! the packet's token, and the slot gets a free extra buffer in exchange.
//! Free buffers travel from the tokens' releases back to the socket through
//! an mpsc channel.

use vstd::prelude::*;
use crate::api::buffer::BufferDesc;
use crate::api::context::Context;
use crate::api::metadata::{Metadata, MetadataType};
use crate::api::socket::Flags;
use crate::api::token::Token;
use crate::capvec::batch_items;
use crate::errors::Error;
use crate::mpsc::consumer_registry::{flatten, ConsumerRegistry, MAX_QUEUES};
use crate::mpsc::{Consumer, Producer};
use crate::netmap_ctx::{ring_next, scan_pick, scans_empty, Port, RawRing, RawSlot, Receiver, RxBuf, SlotData, Transmitter, TxBuf, NS_BUF_CHANGED};

verus! {

/// Options of a netmap socket: how many extra buffers to ask for.
#[derive(Clone, Copy, Debug)]
pub struct NetmapFlags {
    pub extra_buf: u32,
}

impl Flags for NetmapFlags {}

/// Per-packet metadata (none).
#[derive(Clone, Copy, Debug, PartialEq, Eq)]
pub struct Meta {}

impl Metadata for Meta {
    fn into_enum(self) -> (m: MetadataType)
        ensures
            m == MetadataType::Netmap(self),
    {
        MetadataType::Netmap(self)
    }
}

/// The context of a netmap socket: the id of its buffer pool.
#[derive(Clone, Copy, Debug)]
pub struct Ctx {
    pub index: u32,
}

impl Context for Ctx {
    open spec fn id(&self) -> u32 {
        self.index
    }

    fn pool_id(&self) -> (r: u32) {
        self.index
    }
}

impl Ctx {
    /// The context of pool `index` and the channel of its free buffers, all
    /// the port's extra buffers pushed into it and the whole groups handed
    /// over. What does not fill a whole group stays in the producer's batch.
    pub fn new(indexes: &Vec<u32>, index: u32) -> (r: (Self, Producer<BufferDesc>, Consumer<BufferDesc>, ConsumerRegistry))
        requires
            0 < indexes@.len(),
            indexes@.len() * 128 <= isize::MAX,
        ensures
            r.0.index == index,
            r.3.wf(),
            r.1.inner is Some,
            r.1.batch().len() == indexes@.len() % 16,
            r.2.cache().len() == 0,
            flatten(r.3.queues().flatten()) + r.1.batch() == Seq::new(
                indexes@.len(),
                |i: int| indexes@[i] as usize,
            ),
    {
        let n = indexes.len();
        let (mut producer, consumer, mut registry) = crate::mpsc::channel::<BufferDesc>(n);
        let ghost target = Seq::new(n as nat, |i: int| indexes@[i] as usize);
        let mut i: usize = 0;
        while i < n
            invariant
                n == indexes@.len(),
                0 < n,
                target == Seq::new(n as nat, |i: int| indexes@[i] as usize),
                i <= n,
                registry.wf(),
                registry.single_spsc_len == n,
                registry.entries().len() <= 1,
                registry.next_id == 1 + registry.entries().len(),
                producer.inner is None <==> registry.entries().len() == 0,
                producer.inner is Some ==> registry.entries()[0].id == producer.inner->0,
                producer.batch().len() <= 16,
                i > 0 ==> producer.batch().len() >= 1,
                i == 0 ==> producer.batch().len() == 0,
                consumer.cache().len() == 0,
                queue_of(registry).len() * 16 + producer.batch().len() == i,
                flatten(queue_of(registry)) + producer.batch() == target.take(i as int),
            decreases n - i,
        {
            let ghost p0 = producer;
            let ghost r0 = registry;
            proof {
                lemma_room(registry, producer.batch().len(), i as int, n as int);
            }
            producer.push(&mut registry, indexes[i] as usize);
            proof {
                if p0.batch().len() < 16 {
                    assert(target.take(i + 1) =~= target.take(i as int).push(indexes@[i as int] as usize));
                } else {
                    let p = choose|p: Producer<BufferDesc>|
                        crate::mpsc::flush_relation(p0, r0, p, registry) && producer.inner == p.inner
                            && producer.batch() == seq![indexes@[i as int] as usize];
                    let k = choose|k: int| #[trigger] crate::mpsc::flush_relation_at(p0, r0, p, registry, k);
                    assert(k == 0);
                    assert(queue_of(registry) == registry.entries()[0].items@);
                    assert(queue_of(registry).drop_last() == queue_of(r0));
                    assert(flatten(queue_of(registry)) == flatten(queue_of(r0)) + p0.batch());
                    crate::mpsc::consumer_registry::lemma_flatten_len(queue_of(registry));
                    assert(target.take(i + 1) =~= target.take(i as int).push(indexes@[i as int] as usize));
                    assert(flatten(queue_of(registry)) + producer.batch() =~= target.take(i + 1));
                }
            }
            i = i + 1;
        }
        let ghost p0 = producer;
        let ghost r0 = registry;
        proof {
            lemma_room(registry, producer.batch().len(), i as int, n as int);
        }
        producer.flush(&mut registry);
        proof {
            assert(target.take(n as int) =~= target);
            let k = choose|k: int| #[trigger] crate::mpsc::flush_relation_at(p0, r0, producer, registry, k);
            assert(k == 0);
            if p0.batch().len() == 16 {
                assert(queue_of(registry).drop_last() == queue_of(r0));
                assert(flatten(queue_of(registry)) == flatten(queue_of(r0)) + p0.batch());
                assert(producer.batch() =~= Seq::<usize>::empty());
                crate::mpsc::consumer_registry::lemma_flatten_len(queue_of(r0));
                assert(n % 16 == 0) by (nonlinear_arith)
                    requires queue_of(r0).len() * 16 + 16 == n;
            } else {
                assert(queue_of(registry) == queue_of(r0));
                assert(n % 16 == p0.batch().len()) by (nonlinear_arith)
                    requires queue_of(r0).len() * 16 + p0.batch().len() == n, 1 <= p0.batch().len() < 16;
            }
            assert(registry.queues() =~= seq![queue_of(registry)]);
            assert(seq![queue_of(registry)].flatten() =~= queue_of(registry)) by {
                let one = seq![queue_of(registry)];
                assert(one.drop_first() =~= Seq::<Seq<crate::mpsc::simd_type::SimdUsize16>>::empty());
                assert(one.drop_first().flatten() =~= Seq::<crate::mpsc::simd_type::SimdUsize16>::empty());
                assert(one.flatten() == one.first().add(one.drop_first().flatten()));
            }
        }
        (Ctx { index }, producer, consumer, registry)
    }
}

/// The groups of the registry's first queue, none if it has no queue.
pub open spec fn queue_of(r: ConsumerRegistry) -> Seq<crate::mpsc::simd_type::SimdUsize16> {
    if r.entries().len() == 0 {
        Seq::empty()
    } else {
        r.entries()[0].items@
    }
}

/// While the extra buffers are pushed, the single queue has room to flush.
proof fn lemma_room(r: ConsumerRegistry, b: nat, i: int, n: int)
    requires
        r.wf(),
        r.single_spsc_len == n,
        r.entries().len() <= 1,
        queue_of(r).len() * 16 + b == i,
        i <= n,
        0 < n,
        b <= 16,
        i > 0 ==> b >= 1,
    ensures
        r.entries().len() == 1 ==> queue_of(r).len() < n,
{
}


/// The free buffer the consumer hands out next: its last cached one, or, when
/// the cache is empty, the last of those a refill from the registry brings.
pub open spec fn next_free(c: Consumer<BufferDesc>, reg: ConsumerRegistry) -> Option<usize> {
    crate::mpsc::pop_step(c.cache(), reg.queues()).0
}

/// A netmap socket: its transmitter and receiver over the port's rings, its
/// context, and the consumer end of its free-buffer channel.
pub struct Sock {
    pub tx: Transmitter,
    pub rx: Receiver,
    pub ctx: Ctx,
    pub consumer: Consumer<BufferDesc>,
}

/// Every slot of every TX ring names a buffer that lies within the first `len`
/// bytes of the buffer memory (buffer `i` spans `nr_buf_size` bytes from
/// `i * nr_buf_size` on).
pub open spec fn tx_buffers_fit(port: Port, len: nat) -> bool {
    forall|j: int, k: int|
        0 <= j < port.tx_rings@.len() && 0 <= k < port.tx_rings@[j].slot@.len() ==> (#[trigger] port.tx_rings@[j].slot@[k]).inner.buf_idx
            * port.nr_buf_size + port.nr_buf_size <= len
}

/// TX ring `k` of `new` is that of `old` with its head slot taken and its
/// flags cleared; every other ring is unchanged.
pub open spec fn tx_slot_taken(old: Port, new: Port, k: int) -> bool {
    let ring = old.tx_rings@[k];
    &&& 0 <= k < old.tx_rings@.len()
    &&& ring.available() > 0
    &&& new.tx_rings@.len() == old.tx_rings@.len()
    &&& forall|j: int| 0 <= j < old.tx_rings@.len() && j != k ==> new.tx_rings@[j] == old.tx_rings@[j]
    &&& new.tx_rings@[k].head == ring_next(ring.head, ring.num_slots)
    &&& new.tx_rings@[k].num_slots == ring.num_slots
    &&& new.tx_rings@[k].slot@ == ring.slot@.update(
        ring.head as int,
        RawSlot { inner: SlotData { flags: 0, ..ring.slot@[ring.head as int].inner } },
    )
}

/// RX ring `k` of `new` is that of `old` with its head slot taken and given
/// buffer `buf_idx` in exchange (marked changed); every other RX ring is
/// unchanged.
pub open spec fn rx_slot_taken(old: Port, new: Port, k: int, buf_idx: u32) -> bool {
    let ring = old.rx_rings@[k];
    let h = ring.head as int;
    &&& 0 <= k < old.rx_rings@.len()
    &&& ring.available() > 0
    &&& new.rx_rings@.len() == old.rx_rings@.len()
    &&& forall|j: int| 0 <= j < old.rx_rings@.len() && j != k ==> new.rx_rings@[j] == old.rx_rings@[j]
    &&& new.rx_rings@[k].head == ring_next(ring.head, ring.num_slots)
    &&& new.rx_rings@[k].tail == ring.tail
    &&& new.rx_rings@[k].slot@ == ring.slot@.update(
        h,
        crate::netmap_ctx::RawSlot {
            inner: SlotData { buf_idx, flags: ring.slot@[h].inner.flags | NS_BUF_CHANGED, ..ring.slot@[h].inner },
        },
    )
}

/// The slot `idx` of RX ring `ring` holds buffer `buf_idx`, marked changed,
/// and everything else of the port is as in `old`.
pub open spec fn slot_swapped(old: Port, new: Port, ring: int, idx: int, buf_idx: u32) -> bool {
    &&& new.rx_rings@.len() == old.rx_rings@.len()
    &&& new.tx_rings@ == old.tx_rings@
    &&& forall|j: int| 0 <= j < old.rx_rings@.len() && j != ring ==> new.rx_rings@[j] == old.rx_rings@[j]
    &&& new.rx_rings@[ring].head == old.rx_rings@[ring].head
    &&& new.rx_rings@[ring].tail == old.rx_rings@[ring].tail
    &&& new.rx_rings@[ring].cur == old.rx_rings@[ring].cur
    &&& new.rx_rings@[ring].slot@ == old.rx_rings@[ring].slot@.update(
        idx,
        crate::netmap_ctx::RawSlot {
            inner: SlotData {
                buf_idx,
                flags: old.rx_rings@[ring].slot@[idx].inner.flags | NS_BUF_CHANGED,
                ..old.rx_rings@[ring].slot@[idx].inner
            },
        },
    )
}

impl Sock {
    /// Turns a received slot into a token: the slot's buffer becomes the
    /// packet's, and a free buffer from the channel takes its place in the
    /// slot. `NoMemory` when no free buffer is left.
    fn recv_inner(&mut self, port: &mut Port, registry: &mut ConsumerRegistry, buf: RxBuf) -> (r: Result<(Token, Meta), Error>)
        requires
            old(port).wf(),
            old(registry).wf(),
            old(self).rx.ring_idx < old(port).rx_rings@.len(),
            buf.slot.idx < old(port).rx_rings@[old(self).rx.ring_idx as int].num_slots,
        ensures
            final(port).wf(),
            final(registry).wf(),
            final(self).rx == old(self).rx,
            final(self).ctx == old(self).ctx,
            match r {
                Ok((t, _)) => {
                    &&& t.idx == BufferDesc(buf.slot.raw.inner.buf_idx as usize)
                    &&& t.len == buf.slot.raw.inner.len as u32
                    &&& t.buffer_pool == old(self).ctx.index
                    &&& next_free(old(self).consumer, *old(registry)) is Some
                    &&& slot_swapped(*old(port), *final(port), old(self).rx.ring_idx as int, buf.slot.idx as int,
                        next_free(old(self).consumer, *old(registry))->0 as u32)
                },
                Err(e) => e == Error::NoMemory && *final(port) == *old(port)
                    && next_free(old(self).consumer, *old(registry)) is None,
            },
    {
        let free_idx = match self.consumer.pop(registry) {
            Some(i) => i,
            None => return Err(Error::NoMemory),
        };
        let pkt_idx = buf.slot.buf_idx();
        let k = self.rx.ring_idx;
        let ghost port0 = *port;
        let mut ring: RawRing = port.rx_rings.remove(k);
        let mut raw = ring.slot[buf.slot.idx as usize];
        raw.update_buffer(free_idx as u32);
        ring.slot.set(buf.slot.idx as usize, raw);
        port.rx_rings.insert(k, ring);
        proof {
            assert forall|j: int| 0 <= j < port.rx_rings@.len() implies (#[trigger] port.rx_rings@[j]).wf() by {
                if j != k {
                    assert(port.rx_rings@[j] == port0.rx_rings@[j]);
                }
            }
            assert(slot_swapped(port0, *port, k as int, buf.slot.idx as int, free_idx as u32));
        }
        let token = Token { idx: BufferDesc(pkt_idx as usize), len: buf.slot.len() as u32, buffer_pool: self.ctx.index };
        Ok((token, Meta {}))
    }

    /// Receives a packet as a token: the next slot of the RX rings, scanning
    /// again from the first ring when the scan ran out; `NoPacket` when no ring
    /// has a slot.
    pub fn recv_token(&mut self, port: &mut Port, registry: &mut ConsumerRegistry) -> (r: Result<(Token, Meta), Error>)
        requires
            old(port).wf(),
            old(registry).wf(),
        ensures
            final(port).wf(),
            final(registry).wf(),
            final(self).ctx == old(self).ctx,
            final(port).tx_rings@ == old(port).tx_rings@,
            r == Err::<(Token, Meta), Error>(Error::NoPacket) ==> final(port).rx_rings@ == old(port).rx_rings@,
            r == Err::<(Token, Meta), Error>(Error::NoPacket) <==> scans_empty(
                old(port).rx_rings@,
                old(self).rx.ring_idx as int,
                old(port).first_rx_ring as int,
                old(self).rx.last_rx_ring as int,
            ),
            r != Err::<(Token, Meta), Error>(Error::NoPacket) ==> exists|k: int|
                #![trigger old(port).rx_rings@[k]]
                {
                let ring = old(port).rx_rings@[k];
                let slot = ring.slot@[ring.head as int].inner;
                &&& 0 <= k < old(port).rx_rings@.len()
                &&& scan_pick(
                    old(port).rx_rings@,
                    old(self).rx.ring_idx as int,
                    old(port).first_rx_ring as int,
                    old(self).rx.last_rx_ring as int,
                    k,
                )
                &&& final(self).rx.ring_idx == k
                &&& ring.available() > 0
                &&& match r {
                    Ok((t, _)) => {
                        &&& t == Token { idx: BufferDesc(slot.buf_idx as usize), len: slot.len as u32, buffer_pool: old(self).ctx.index }
                        &&& next_free(old(self).consumer, *old(registry)) is Some
                        &&& rx_slot_taken(*old(port), *final(port), k, next_free(old(self).consumer, *old(registry))->0 as u32)
                    },
                    Err(e) => {
                        &&& e == Error::NoMemory
                        &&& next_free(old(self).consumer, *old(registry)) is None
                        &&& final(port).rx_rings@[k].head == ring_next(ring.head, ring.num_slots)
                        &&& final(port).rx_rings@[k].slot@ == ring.slot@
                    },
                }
            },
    {
        let ghost port0 = *port;
        let b = match self.rx.next(port) {
            Some(b) => b,
            None => {
                self.rx.reset(port);
                match self.rx.next(port) {
                    Some(b) => b,
                    None => {
                        return Err(Error::NoPacket);
                    },
                }
            },
        };
        let ghost k = self.rx.ring_idx as int;
        let ghost port1 = *port;
        proof {
            assert(port1.rx_rings@[k].slot@ == port0.rx_rings@[k].slot@);
        }
        let r = self.recv_inner(port, registry, b);
        proof {
            let ring = port0.rx_rings@[k];
            assert(0 <= k < port0.rx_rings@.len());
            assert(b.slot.idx == ring.head);
            assert(b.slot.raw == ring.slot@[ring.head as int]);
            match r {
                Ok(_) => {
                    assert(rx_slot_taken(port0, *port, k, next_free(old(self).consumer, *old(registry))->0 as u32));
                },
                Err(_) => {
                    assert(port.rx_rings@[k].head == ring_next(ring.head, ring.num_slots));
                },
            }
        }
        r
    }

    /// Copies `packet` to the start of the buffer of a free TX slot; a packet
    /// longer than a buffer is refused.
    fn send_inner(&self, port: &Port, buffers: &mut Vec<u8>, scan: &TxBuf, packet: &[u8]) -> (r: Result<(), Error>)
        requires
            scan.slot.raw.inner.buf_idx * port.nr_buf_size + port.nr_buf_size <= old(buffers)@.len(),
        ensures
            ({
                let start = scan.slot.raw.inner.buf_idx * port.nr_buf_size;
                if packet@.len() > port.nr_buf_size {
                    r == Err::<(), Error>(Error::TooBigPacket(packet@.len() as usize)) && final(buffers)@ == old(buffers)@
                } else {
                    r is Ok && final(buffers)@ == old(buffers)@.take(start) + packet@ + old(buffers)@.skip(
                        start + packet@.len(),
                    )
                }
            }),
    {
        let size = port.nr_buf_size as usize;
        if packet.len() > size {
            return Err(Error::TooBigPacket(packet.len()));
        }
        let ghost blen = buffers@.len();
        assert(buffers@.len() <= usize::MAX) by {
            let _ = buffers.len();
        }
        assert(scan.slot.raw.inner.buf_idx * port.nr_buf_size <= usize::MAX) by (nonlinear_arith)
            requires
                scan.slot.raw.inner.buf_idx * port.nr_buf_size + port.nr_buf_size <= blen,
                blen <= usize::MAX,
        ;
        let start = scan.slot.raw.inner.buf_idx as usize * size;
        let ghost b0 = buffers@;
        let mut i: usize = 0;
        while i < packet.len()
            invariant
                i <= packet@.len() <= size,
                start + size <= b0.len(),
                buffers@.len() == b0.len(),
                buffers@ == b0.take(start as int) + packet@.take(i as int) + b0.skip(start + i),
            decreases packet@.len() - i,
        {
            assert(start + i < buffers.len());
            buffers.set(start + i, packet[i]);
            i = i + 1;
            proof {
                assert(buffers@ =~= b0.take(start as int) + packet@.take(i as int) + b0.skip(start + i));
            }
        }
        proof {
            assert(packet@.take(packet@.len() as int) =~= packet@);
        }
        Ok(())
    }

    /// Clears the flags of slot `idx` of TX ring `k` (what giving a `TxBuf`
    /// back does).
    fn release_tx_buf(port: &mut Port, k: usize, idx: u32)
        requires
            old(port).wf(),
            k < old(port).tx_rings@.len(),
            idx < old(port).tx_rings@[k as int].num_slots,
        ensures
            final(port).wf(),
            final(port).rx_rings@ == old(port).rx_rings@,
            final(port).nr_buf_size == old(port).nr_buf_size,
            final(port).tx_rings@.len() == old(port).tx_rings@.len(),
            forall|j: int| 0 <= j < old(port).tx_rings@.len() && j != k ==> final(port).tx_rings@[j]
                == old(port).tx_rings@[j],
            ({
                let ring = old(port).tx_rings@[k as int];
                &&& final(port).tx_rings@[k as int].head == ring.head
                &&& final(port).tx_rings@[k as int].tail == ring.tail
                &&& final(port).tx_rings@[k as int].cur == ring.cur
                &&& final(port).tx_rings@[k as int].num_slots == ring.num_slots
                &&& final(port).tx_rings@[k as int].slot@ == ring.slot@.update(
                    idx as int,
                    RawSlot { inner: SlotData { flags: 0, ..ring.slot@[idx as int].inner } },
                )
            }),
    {
        let ghost port0 = *port;
        let mut ring: RawRing = port.tx_rings.remove(k);
        let mut raw = ring.slot[idx as usize];
        let data = SlotData { flags: 0, ..raw.inner };
        raw.update(data);
        ring.slot.set(idx as usize, raw);
        port.tx_rings.insert(k, ring);
        proof {
            assert forall|j: int| 0 <= j < port.tx_rings@.len() implies (#[trigger] port.tx_rings@[j]).wf() by {
                if j != k {
                    assert(port.tx_rings@[j] == port0.tx_rings@[j]);
                }
            }
        }
    }

    /// Sends `packet` through the next free TX slot, scanning again from the
    /// first TX ring when the scan ran out; `NoMemory` when no ring has a free
    /// slot. The slot's flags are cleared whether or not the packet fit.
    pub fn send(&mut self, port: &mut Port, buffers: &mut Vec<u8>, packet: &[u8]) -> (r: Result<(), Error>)
        requires
            old(port).wf(),
            tx_buffers_fit(*old(port), old(buffers)@.len()),
        ensures
            final(port).wf(),
            final(port).rx_rings@ == old(port).rx_rings@,
            final(self).rx == old(self).rx,
            final(self).ctx == old(self).ctx,
            final(self).consumer == old(self).consumer,
            r == Err::<(), Error>(Error::NoMemory) ==> final(port).tx_rings@ == old(port).tx_rings@ && final(buffers)@
                == old(buffers)@,
            r == Err::<(), Error>(Error::NoMemory) <==> scans_empty(
                old(port).tx_rings@,
                old(self).tx.ring_idx as int,
                old(port).first_tx_ring as int,
                old(self).tx.last_tx_ring as int,
            ),
            r != Err::<(), Error>(Error::NoMemory) ==> exists|k: int| {
                let ring = old(port).tx_rings@[k];
                let start = ring.slot@[ring.head as int].inner.buf_idx * old(port).nr_buf_size;
                &&& #[trigger] tx_slot_taken(*old(port), *final(port), k)
                &&& scan_pick(
                    old(port).tx_rings@,
                    old(self).tx.ring_idx as int,
                    old(port).first_tx_ring as int,
                    old(self).tx.last_tx_ring as int,
                    k,
                )
                &&& final(self).tx.ring_idx == k
                &&& if packet@.len() > old(port).nr_buf_size {
                    r == Err::<(), Error>(Error::TooBigPacket(packet@.len() as usize)) && final(buffers)@ == old(buffers)@
                } else {
                    r is Ok && final(buffers)@ == old(buffers)@.take(start) + packet@ + old(buffers)@.skip(
                        start + packet@.len(),
                    )
                }
            },
    {
        let ghost port0 = *port;
        let next = match self.tx.next(port) {
            Some(b) => b,
            None => {
                self.tx.reset(port);
                match self.tx.next(port) {
                    Some(b) => b,
                    None => {
                        return Err(Error::NoMemory);
                    },
                }
            },
        };
        let k = self.tx.ring_idx;
        proof {
            let ring = port0.tx_rings@[k as int];
            assert(next.slot.raw == ring.slot@[ring.head as int]);
            assert(port.tx_rings@[k as int].slot@ == ring.slot@);
            assert(next.slot.raw.inner.buf_idx * port.nr_buf_size + port.nr_buf_size <= buffers@.len());
        }
        let r = self.send_inner(port, buffers, &next, packet);
        Self::release_tx_buf(port, k, next.slot.idx);
        proof {
            assert(tx_slot_taken(port0, *port, k as int));
        }
        r
    }
}

} // verus!
