//! AF_XDP: the user-space rings shared with the kernel and the socket logic
//! built on them.

pub mod compat;
pub mod wrapper;

pub use wrapper::{RxRing, TxRing, TxSlot, XdpDesc, XdpDescData};

use vstd::prelude::*;
use crate::api::context::Context;
use crate::api::metadata::{Metadata, MetadataType};
use crate::api::socket::Flags;
use crate::errors::{Error, OsError};
use crate::api::buffer::BufferDesc;
use crate::mpsc::{
    in_flight, lemma_pop_run_stops, lemma_registered_same_queues, lemma_room_can_flush, pop_run, pop_step, registered, room, Consumer,
    Producer,
};
use crate::mpsc::consumer_registry::{
    drained_cache, drained_queues, lemma_drained_cache_bound, ConsumerRegistry,
};
use crate::mpsc::simd_type::SimdUsize16;
use compat::{
    lemma_wrap_injective, lemma_mod_distinct, lemma_ring_size_facts, lemma_wrap_add, lemma_wrap_sub, wrap32, XskRingCons,
    XskRingProd, XskShared,
};
use wrapper::{desc_data, Umem};
use crate::api::token::Token;

verus! {

/// The result of a libxdp call that returns a count, or a negated error
/// number when it fails.
pub fn resultify(x: i32) -> (r: Result<u32, OsError>)
    requires
        x > i32::MIN,
    ensures
        x >= 0 ==> r == Ok::<u32, OsError>(x as u32),
        x < 0 ==> r == Err::<u32, OsError>(OsError(-x as i32)),
{
    if x >= 0 {
        Ok(x as u32)
    } else {
        Err(OsError(-x))
    }
}

/// Options of an AF_XDP socket.
#[derive(Clone, Copy, Debug)]
pub struct AfXdpFlags {
    pub bind_flags: u16,
    pub xdp_flags: u32,
    pub num_frames: u32,
    pub frame_size: u32,
    pub tx_size: u32,
    pub rx_size: u32,
}

impl Flags for AfXdpFlags {}

/// Per-packet metadata (none).
#[derive(Clone, Copy, Debug, PartialEq, Eq)]
pub struct Meta {}

impl Metadata for Meta {
    fn into_enum(self) -> (m: MetadataType)
        ensures
            m == MetadataType::AfXdp(self),
    {
        MetadataType::AfXdp(self)
    }
}

/// The packet memory (UMEM) a socket's frames live in: its size in bytes.
#[derive(Clone, Copy, Debug)]
pub struct UmemArea {
    pub size: usize,
}

/// The context of an AF_XDP socket: the id of its frame pool and its UMEM.
#[derive(Clone, Copy, Debug)]
pub struct Ctx {
    pub buffer: UmemArea,
    pub index: u32,
}

impl Ctx {
    /// The context of pool `index` over `buffer`, with a new channel for its
    /// `nbufs` free frames: the producer end, the consumer end and the
    /// registry they share. (The pool numbers come from a process-wide
    /// counter, which the caller keeps.)
    pub fn new(nbufs: usize, buffer: UmemArea, index: u32) -> (r: (Self, Producer<BufferDesc>, Consumer<BufferDesc>, ConsumerRegistry))
        requires
            nbufs as int * 128 <= isize::MAX,
        ensures
            r.0 == (Ctx { buffer, index }),
            r.1.inner is None,
            r.1.batch().len() == 0,
            r.2.cache().len() == 0,
            r.3.wf(),
            r.3.entries().len() == 0,
            r.3.single_spsc_len == nbufs,
            r.3.next_id == 1,
    {
        let (producer, consumer, registry) = crate::mpsc::channel(nbufs);
        (Ctx { buffer, index }, producer, consumer, registry)
    }
}

impl Context for Ctx {
    open spec fn id(&self) -> u32 {
        self.index
    }

    fn pool_id(&self) -> (r: u32) {
        self.index
    }
}

/// The consumer's cache and the registry's queues once the consumer made sure
/// it holds something: unchanged when its cache is not empty, refilled from
/// the queues when it is.
pub open spec fn refreshed(cache: Seq<usize>, qs: Seq<Seq<SimdUsize16>>) -> (Seq<usize>, Seq<Seq<SimdUsize16>>) {
    if cache.len() > 0 {
        (cache, qs)
    } else {
        (drained_cache(qs, cache, qs.len() as int), drained_queues(qs, cache))
    }
}

/// The free entries the fill ring offers for `wanted` frames: its cached free
/// count when that covers `wanted`, else the count after reading the kernel's
/// consumer counter again.
pub open spec fn fill_free(fq: XskRingProd, s: XskShared<u64>, wanted: nat) -> nat {
    if fq.cached_free() >= wanted {
        fq.cached_free()
    } else {
        (s.consumed@ + s.size() - fq.reserved@) as nat
    }
}

/// The `n` entries a refill publishes on a fill ring whose entries are `ring`,
/// whose producer counter stands at `p` and which had `o` entries reserved
/// already: those `o` entries as they were, then the new frame addresses.
pub open spec fn filled(ring: Seq<u64>, p: nat, o: nat, frames: Seq<usize>, n: nat) -> Seq<u64> {
    Seq::new(n, |k: int| if k < o { ring[(p + k) % (ring.len() as int)] } else { frames[k - o] as u32 as u64 })
}

/// The UMEM's rings, and the consumer end of the channel of free frames.
pub struct UmemManager {
    pub umem: Umem,
    pub consumer: Consumer<BufferDesc>,
}

impl UmemManager {
    /// A manager over the UMEM's rings that takes free frames from `consumer`.
    pub fn create_with_buffer(umem: Umem, consumer: Consumer<BufferDesc>) -> (m: Self)
        ensures
            m.umem == umem,
            m.consumer == consumer,
    {
        UmemManager { umem, consumer }
    }

    /// A free frame's address, from the channel of free frames.
    pub fn alloc_frame(&mut self, registry: &mut ConsumerRegistry) -> (r: Option<u32>)
        requires
            old(registry).wf(),
        ensures
            final(registry).wf(),
            final(registry).same_queues(&*old(registry)),
            final(self).umem == old(self).umem,
            ({
                let st = pop_step(old(self).consumer.cache(), old(registry).queues());
                &&& r == match st.0 {
                    Some(v) => Some(v as u32),
                    None => None::<u32>,
                }
                &&& final(self).consumer.cache() == st.1
                &&& final(registry).queues() == st.2
            }),
    {
        match self.consumer.pop(registry) {
            Some(idx) => Some(idx as u32),
            None => None,
        }
    }

    /// Hands free frames to the kernel through the fill ring: once the
    /// consumer holds some frames, as many entries as the ring has free but
    /// never more than the frames held. Each entry gets the address of a frame
    /// taken from the consumer's cache, last first, and all of them are
    /// published.
    pub fn refill_fill_ring(&mut self, fill: &mut XskShared<u64>, registry: &mut ConsumerRegistry) -> (r: Result<(), Error>)
        requires
            old(self).umem.fq.ring.inv(&*old(fill)),
            old(registry).wf(),
        ensures
            r is Ok,
            final(registry).wf(),
            final(registry).same_queues(&*old(registry)),
            final(self).umem.cq == old(self).umem.cq,
            final(self).umem.fq.ring.inv(&*final(fill)),
            final(fill).consumed@ == old(fill).consumed@,
            ({
                let rf = refreshed(old(self).consumer.cache(), old(registry).queues());
                let wanted = rf.0.len();
                let avail = fill_free(old(self).umem.fq.ring, *old(fill), wanted);
                let o = old(self).umem.fq.ring.outstanding(&*old(fill));
                let n = if avail < wanted { avail } else { wanted };
                &&& final(registry).queues() == rf.1
                &&& final(self).consumer.cache() == rf.0.take(wanted - n)
                &&& final(self).umem.fq.ring.reserved@ == old(self).umem.fq.ring.reserved@ + n
                &&& final(fill).produced@ == old(fill).produced@ + n
                &&& final(fill).log@ == old(fill).log@ + filled(
                    old(fill).ring@,
                    old(fill).produced@,
                    o,
                    taken_frames(rf.0, n),
                    n,
                )
            }),
    {
        let ghost c0 = self.consumer.cache();
        let ghost q0 = registry.queues();
        let ghost rf = refreshed(c0, q0);
        let mut wanted = self.consumer.available_len();
        if wanted == 0 {
            proof {
                assert(c0 =~= Seq::<usize>::empty());
            }
            self.consumer.sync(registry);
            wanted = self.consumer.available_len();
        }
        let wanted = wanted as u32;
        if wanted == 0 {
            proof {
                assert(self.consumer.cache().take(0) =~= self.consumer.cache());
                assert(fill.log@ + filled(fill.ring@, fill.produced@, self.umem.fq.ring.outstanding(&*fill),
                    taken_frames(rf.0, 0), 0) =~= fill.log@);
            }
            return Ok(());
        }
        let ghost fq0 = self.umem.fq.ring;
        let ghost o = fq0.outstanding(&*fill);
        let available = self.umem.ring_prod_mut().nb_free(fill, wanted);
        if available == 0 {
            proof {
                assert(self.consumer.cache().take(wanted as int) =~= self.consumer.cache());
                assert(fill.log@ + filled(fill.ring@, fill.produced@, o, taken_frames(rf.0, 0), 0) =~= fill.log@);
            }
            return Ok(());
        }
        let count: u32 = if available < wanted { available } else { wanted };
        let (reserved, idx) = self.umem.ring_prod_mut().reserve(fill, count);
        if reserved != count {
            return Err(Error::Other("refill_fill_ring: not enough descriptors reserved"));
        }
        let ghost s0 = *fill;
        let ghost p0 = s0.produced@;
        let ghost size = s0.size() as int;
        proof {
            lemma_ring_size_facts(s0.size());
            assert(idx == wrap32((p0 + o) as int));
        }
        let mut i: u32 = 0;
        while i < count
            invariant
                i <= count,
                count <= wanted,
                wanted as nat == rf.0.len(),
                s0 == *old(fill),
                rf == refreshed(old(self).consumer.cache(), old(registry).queues()),
                o == old(self).umem.fq.ring.outstanding(&*old(fill)),
                old(self).umem.fq.ring.reserved@ == p0 + o,
                s0.wf(),
                0 < size <= 0x8000_0000,
                size == s0.size(),
                p0 == s0.produced@,
                o + count <= size,
                self.umem.fq.ring.inv(&*fill),
                self.umem.fq.ring.reserved@ == p0 + o + count,
                self.umem.cq == old(self).umem.cq,
                fill.produced@ == p0,
                fill.consumed@ == s0.consumed@,
                fill.producer == s0.producer,
                fill.log@ == s0.log@,
                fill.ring@.len() == size,
                idx == wrap32((p0 + o) as int),
                registry.wf(),
                registry.same_queues(&*old(registry)),
                self.consumer.cache() == rf.0.take(wanted - i),
                registry.queues() == rf.1,
                forall|k: int|
                    0 <= k < o + count ==> #[trigger] fill.ring@[(p0 + k) % size] == if o <= k < o + i {
                        taken_frames(rf.0, count as nat)[k - o] as u32 as u64
                    } else {
                        s0.ring@[(p0 + k) % size]
                    },
            decreases count - i,
        {
            let ghost cache_before = self.consumer.cache();
            let addr = match self.alloc_frame(registry) {
                Some(a) => a,
                None => {
                    return Err(Error::Other("refill_fill_ring: no free frames"));
                },
            };
            proof {
                assert(cache_before.len() == wanted - i);
                assert(addr == rf.0[wanted - i - 1] as u32);
                assert(self.consumer.cache() =~= rf.0.take(wanted - (i + 1)));
            }
            let ghost ring_before = fill.ring@;
            proof {
                lemma_wrap_add((p0 + o) as int, i);
                lemma_wrap_sub(p0 + o + i, p0 as int);
            }
            self.umem.ring_prod_mut().set_addr(fill, idx.wrapping_add(i), addr as u64);
            proof {
                assert forall|k: int| 0 <= k < o + count implies #[trigger] fill.ring@[(p0 + k) % size] == if o <= k < o + i + 1 {
                    taken_frames(rf.0, count as nat)[k - o] as u32 as u64
                } else {
                    s0.ring@[(p0 + k) % size]
                } by {
                    if k != o + i {
                        if k < o + i {
                            lemma_mod_distinct(p0 as int, k, o + i, size);
                        } else {
                            lemma_mod_distinct(p0 as int, o + i, k, size);
                        }
                        assert(fill.ring@[(p0 + k) % size] == ring_before[(p0 + k) % size]);
                    }
                }
            }
            i = i + 1;
        }
        let ghost ring_full = fill.ring@;
        self.umem.ring_prod_mut().submit(fill, count);
        proof {
            assert(Seq::new(count as nat, |k: int| ring_full[(p0 + k) % size]) =~= filled(
                s0.ring@,
                p0,
                o,
                taken_frames(rf.0, count as nat),
                count as nat,
            ));
        }
        Ok(())
    }
}

/// The first `n` frames taken from a cache holding `cache`: its last `n`
/// entries, last first.
pub open spec fn taken_frames(cache: Seq<usize>, n: nat) -> Seq<usize> {
    Seq::new(n, |k: int| cache[cache.len() - 1 - k])
}

/// How many entries a `peek` for `nb` takes from consumer handle `c` on `s`:
/// its cached entries, or those the producer published since, at most `nb`.
pub open spec fn peek_count<T>(c: XskRingCons, s: XskShared<T>, nb: nat) -> nat {
    let avail = if c.cached_avail() > 0 {
        c.cached_avail()
    } else {
        (s.produced@ - c.peeked@) as nat
    };
    if avail > nb {
        nb
    } else {
        avail
    }
}

/// Completed transmissions: up to 64 frame addresses the kernel has sent are
/// taken from the completion ring and pushed, in order, to the channel of
/// free frames; the entries go back to the kernel and the producer is
/// flushed.
pub fn complete_tx(
    umem: &mut Umem,
    comp: &mut XskShared<u64>,
    producer: &mut Producer<BufferDesc>,
    registry: &mut ConsumerRegistry,
) -> (r: Result<(), Error>)
    requires
        old(umem).cq.ring.inv(&*old(comp)),
        old(registry).wf(),
        registered(*old(producer), *old(registry)),
        old(producer).batch().len() <= 16,
        16 * room(*old(producer), *old(registry)) >= old(producer).batch().len() + peek_count(
            old(umem).cq.ring,
            *old(comp),
            64,
        ),
    ensures
        r is Ok,
        final(registry).wf(),
        registered(*final(producer), *final(registry)),
        final(producer).batch().len() <= 16,
        final(umem).fq == old(umem).fq,
        final(umem).cq.ring.inv(&*final(comp)),
        ({
            let c = peek_count(old(umem).cq.ring, *old(comp), 64);
            let p0 = old(umem).cq.ring.peeked@;
            &&& final(umem).cq.ring.peeked@ == p0 + c
            &&& final(comp).consumed@ == old(comp).consumed@ + c
            &&& final(comp).produced@ == old(comp).produced@
            &&& final(comp).log@ == old(comp).log@
            &&& in_flight(*final(producer), *final(registry)) == in_flight(*old(producer), *old(registry))
                + Seq::new(c, |j: int| old(comp).log@[p0 + j] as usize)
        }),
{
    let ghost f0 = in_flight(*producer, *registry);
    let ghost s0 = *comp;
    let ghost peeked0 = umem.cq.ring.peeked@;
    let ghost held0 = umem.cq.ring.held(comp);
    let (completed, mut idx) = umem.ring_cons_mut().peek(comp, 64);
    if completed == 0 {
        proof {
            assert(in_flight(*producer, *registry) =~= f0 + Seq::new(0, |j: int| s0.log@[peeked0 + j] as usize));
        }
        return Ok(());
    }
    proof {
        lemma_ring_size_facts(s0.size());
        assert(idx == wrap32(peeked0 as int));
    }
    let mut j: u32 = 0;
    while j < completed
        invariant
            j <= completed <= 64,
            s0 == *old(comp),
            *comp == s0,
            s0.size() <= 0x8000_0000,
            umem.fq == old(umem).fq,
            umem.cq.ring.inv(comp),
            umem.cq.ring.peeked@ == peeked0 + completed,
            peeked0 == old(umem).cq.ring.peeked@,
            held0 == peeked0 - s0.consumed@,
            held0 + completed <= s0.size(),
            completed == peek_count(old(umem).cq.ring, *old(comp), 64),
            idx == wrap32(peeked0 + j),
            registry.wf(),
            registered(*producer, *registry),
            producer.batch().len() <= 16,
            j > 0 ==> producer.batch().len() > 0,
            16 * room(*producer, *registry) >= producer.batch().len() + (completed - j),
            f0 == in_flight(*old(producer), *old(registry)),
            in_flight(*producer, *registry) == f0 + Seq::new(j as nat, |t: int| s0.log@[peeked0 + t] as usize),
        decreases completed - j,
    {
        proof {
            lemma_wrap_sub(peeked0 + j, s0.consumed@ as int);
        }
        let addr = umem.ring_cons_mut().get_addr(comp, idx);
        proof {
            lemma_wrap_add(peeked0 + j, 1);
            lemma_room_can_flush(*producer, *registry);
        }
        idx = idx.wrapping_add(1);
        let ghost before = in_flight(*producer, *registry);
        producer.push(registry, addr as usize);
        proof {
            assert(in_flight(*producer, *registry) =~= f0 + Seq::new((j + 1) as nat, |t: int| s0.log@[peeked0 + t] as usize));
        }
        j = j + 1;
    }
    umem.ring_cons_mut().release(comp, completed);
    proof {
        lemma_room_can_flush(*producer, *registry);
    }
    producer.flush(registry);
    Ok(())
}

/// Packet and byte counters of a socket.
#[derive(Clone, Copy, Debug)]
pub struct StatsRecord {
    pub timestamp: u64,
    pub rx_packets: u64,
    pub rx_bytes: u64,
    pub tx_packets: u64,
    pub tx_bytes: u64,
}

impl Default for StatsRecord {
    fn default() -> (s: Self)
        ensures
            s.timestamp == 0,
            s.rx_packets == 0,
            s.rx_bytes == 0,
            s.tx_packets == 0,
            s.tx_bytes == 0,
    {
        StatsRecord { timestamp: 0, rx_packets: 0, rx_bytes: 0, tx_packets: 0, tx_bytes: 0 }
    }
}

/// The memory a socket shares with the kernel: its RX, TX, fill and
/// completion rings, and the UMEM the frames live in.
pub struct XskMem {
    pub rx: XskShared<XdpDesc>,
    pub tx: XskShared<XdpDesc>,
    pub fill: XskShared<u64>,
    pub comp: XskShared<u64>,
    pub umem: Vec<u8>,
}

/// The RX and TX rings of a socket.
pub struct XskSocket {
    pub rx: RxRing,
    pub tx: TxRing,
}

impl XskSocket {
    /// The RX ring.
    pub fn rx_mut(&mut self) -> (r: &mut RxRing)
        ensures
            *r == old(self).rx,
            final(self).rx == *final(r),
            final(self).tx == old(self).tx,
    {
        &mut self.rx
    }

    /// The TX ring.
    pub fn tx_mut(&mut self) -> (r: &mut TxRing)
        ensures
            *r == old(self).tx,
            final(self).tx == *final(r),
            final(self).rx == old(self).rx,
    {
        &mut self.tx
    }
}

/// `new` holds `packet` in a frame of the UMEM and, at entry `h` of the TX
/// ring, a descriptor of that frame with the packet's length; the frame
/// and descriptor are the only places where `new` differs from `old` in the
/// UMEM and the TX ring's entries.
#[verifier::opaque]
pub open spec fn tx_packet_written(old: XskMem, new: XskMem, h: int, packet: Seq<u8>) -> bool {
    let size = old.tx.size() as int;
    exists|a: int|
        0 <= a && a + packet.len() <= old.umem@.len() && new.umem@ == old.umem@.take(a) + packet + old.umem@.skip(
            a + packet.len(),
        ) && new.tx.ring@ == old.tx.ring@.update(
            h % size,
            XdpDesc { addr: a as u64, len: packet.len() as u32, options: old.tx.ring@[h % size].options },
        )
}

/// Where a packet was written depends only on the UMEM and the TX ring's
/// entries.
proof fn lemma_tx_packet_written_from(m0: XskMem, m1: XskMem, m2: XskMem, h: int, packet: Seq<u8>)
    requires
        m0.umem@ == m1.umem@,
        m0.tx.ring@ == m1.tx.ring@,
        tx_packet_written(m1, m2, h, packet),
    ensures
        tx_packet_written(m0, m2, h, packet),
{
    reveal(tx_packet_written);
}

/// An AF_XDP socket: its context, rings, UMEM rings with the consumer of free
/// frames, the producer that gives frames back, and its counters.
pub struct Sock {
    pub ctx: Ctx,
    pub xsk: XskSocket,
    pub outstanding_tx: u32,
    pub umem_manager: UmemManager,
    pub producer: Producer<BufferDesc>,
    pub stats: StatsRecord,
    pub prev_stats: StatsRecord,
}

impl Sock {
    /// The socket's handles agree with the shared memory and its producer
    /// with the registry.
    pub open spec fn inv(&self, mem: &XskMem, registry: &ConsumerRegistry) -> bool {
        &&& self.xsk.rx.inv(&mem.rx)
        &&& self.xsk.tx.inv(&mem.tx)
        &&& self.umem_manager.umem.fq.ring.inv(&mem.fill)
        &&& self.umem_manager.umem.cq.ring.inv(&mem.comp)
        &&& registry.wf()
        &&& registered(self.producer, *registry)
        &&& self.producer.batch().len() <= 16
    }

    /// The producer has room for a flush to give back up to 64 completed
    /// frames without waiting.
    pub open spec fn flush_room(&self, registry: &ConsumerRegistry) -> bool {
        16 * room(self.producer, *registry) >= self.producer.batch().len() + 64
    }

    /// The token for a received descriptor; counts the packet.
    fn recv_inner(&mut self, slot: XdpDescData) -> (r: Result<(Token, Meta), Error>)
        ensures
            r == Ok::<(Token, Meta), Error>((
                Token { idx: BufferDesc(slot.offset as usize), len: slot.len, buffer_pool: old(self).ctx.index },
                Meta {},
            )),
            final(self).stats == (StatsRecord {
                rx_bytes: vstd::wrapping::u64_specs::wrapping_add(old(self).stats.rx_bytes, slot.len as u64),
                rx_packets: vstd::wrapping::u64_specs::wrapping_add(old(self).stats.rx_packets, 1),
                ..old(self).stats
            }),
            final(self).ctx == old(self).ctx,
            final(self).xsk == old(self).xsk,
            final(self).umem_manager == old(self).umem_manager,
            final(self).producer == old(self).producer,
    {
        let mut stats = self.stats;
        stats.rx_bytes = stats.rx_bytes.wrapping_add(slot.len as u64);
        stats.rx_packets = stats.rx_packets.wrapping_add(1);
        self.stats = stats;
        let token = Token { idx: BufferDesc(slot.offset as usize), len: slot.len, buffer_pool: self.ctx.index };
        Ok((token, Meta {}))
    }

    /// Receives a packet as a token for the next descriptor of the RX ring, in
    /// the order the kernel published them. When none is there the fill ring
    /// is refilled and the RX ring looked at once more.
    pub fn recv_token(&mut self, mem: &mut XskMem, registry: &mut ConsumerRegistry) -> (r: Result<(Token, Meta), Error>)
        requires
            old(self).inv(&*old(mem), &*old(registry)),
        ensures
            final(self).inv(&*final(mem), &*final(registry)),
            final(self).ctx == old(self).ctx,
            final(mem).tx == old(mem).tx,
            final(mem).comp == old(mem).comp,
            final(mem).umem == old(mem).umem,
            final(mem).rx.log@ == old(mem).rx.log@,
            final(mem).rx.produced@ == old(mem).rx.produced@,
            match r {
                Ok((t, _)) => {
                    let d = desc_data(old(mem).rx.log@[old(self).xsk.rx.delivered(&old(mem).rx)]);
                    &&& t == Token { idx: BufferDesc(d.offset as usize), len: d.len, buffer_pool: old(self).ctx.index }
                    &&& final(self).xsk.rx.delivered(&final(mem).rx) == old(self).xsk.rx.delivered(&old(mem).rx) + 1
                },
                Err(e) => {
                    &&& old(self).xsk.rx.cache().len() == 0
                    &&& old(mem).rx.produced@ == old(mem).rx.consumed@
                    &&& final(mem).rx == old(mem).rx
                    &&& e == Error::Other("No packets")
                },
            },
    {
        match self.xsk.rx_mut().advance(&mut mem.rx) {
            Some(slot) => self.recv_inner(slot),
            None => {
                let ghost r0 = *registry;
                let res = self.umem_manager.refill_fill_ring(&mut mem.fill, registry);
                proof {
                    lemma_registered_same_queues(self.producer, r0, *registry);
                }
                match res {
                    Ok(()) => {},
                    Err(e) => {
                        return Err(e);
                    },
                }
                match self.xsk.rx_mut().advance(&mut mem.rx) {
                    Some(slot) => self.recv_inner(slot),
                    None => Err(Error::Other("No packets")),
                }
            },
        }
    }

    /// Fills a TX descriptor with `payload`: a free frame receives the bytes
    /// and the descriptor gets its address and the length; counts the packet.
    /// Fails when no frame is free or the payload does not fit in the UMEM
    /// from that frame on.
    fn send_inner(&mut self, slot: TxSlot, payload: &[u8], mem: &mut XskMem, registry: &mut ConsumerRegistry) -> (r: Result<(), Error>)
        requires
            old(self).inv(&*old(mem), &*old(registry)),
            old(mem).tx.produced@ < old(self).xsk.tx.handed(&old(mem).tx),
            slot.idx == wrap32(old(self).xsk.tx.handed(&old(mem).tx) - 1),
        ensures
            final(self).inv(&*final(mem), &*final(registry)),
            final(self).ctx == old(self).ctx,
            final(self).xsk == old(self).xsk,
            final(mem).rx == old(mem).rx,
            final(mem).fill == old(mem).fill,
            final(mem).comp == old(mem).comp,
            final(mem).tx.produced@ == old(mem).tx.produced@,
            final(mem).tx.log@ == old(mem).tx.log@,
            final(self).umem_manager.umem == old(self).umem_manager.umem,
            final(registry).same_queues(&*old(registry)),
            final(self).producer == old(self).producer,
            ({
                let st = pop_step(old(self).umem_manager.consumer.cache(), old(registry).queues());
                &&& final(self).umem_manager.consumer.cache() == st.1
                &&& final(registry).queues() == st.2
                &&& match r {
                    Ok(()) => {
                        let a = (st.0->0 as u32) as int;
                        &&& st.0 is Some
                        &&& a + payload@.len() <= old(mem).umem@.len()
                        &&& payload@.len() <= u32::MAX
                        &&& final(mem).umem@ == old(mem).umem@.take(a) + payload@ + old(mem).umem@.skip(a + payload@.len())
                        &&& ({
                            let h = old(self).xsk.tx.handed(&old(mem).tx) - 1;
                            final(mem).tx.ring@ == old(mem).tx.ring@.update(
                                h % (old(mem).tx.size() as int),
                                XdpDesc {
                                    addr: a as u64,
                                    len: payload@.len() as u32,
                                    options: old(mem).tx.ring@[h % (old(mem).tx.size() as int)].options,
                                },
                            )
                        })
                        &&& tx_packet_written(*old(mem), *final(mem), old(self).xsk.tx.handed(&old(mem).tx) - 1, payload@)
                        &&& final(self).stats == (StatsRecord {
                            tx_bytes: vstd::wrapping::u64_specs::wrapping_add(old(self).stats.tx_bytes, payload@.len() as u64),
                            tx_packets: vstd::wrapping::u64_specs::wrapping_add(old(self).stats.tx_packets, 1),
                            ..old(self).stats
                        })
                    },
                    Err(e) => {
                        &&& final(mem).tx == old(mem).tx
                        &&& final(mem).umem == old(mem).umem
                        &&& final(self).stats == old(self).stats
                        &&& (e == Error::Other("No free frames for TX") <==> st.0 is None)
                        &&& (e == Error::TooBigPacket(payload@.len() as usize) <==> st.0 is Some)
                        &&& (st.0 is Some ==> !(((st.0->0 as u32) as int) + payload@.len() <= old(mem).umem@.len()
                            && payload@.len() <= u32::MAX))
                    },
                }
            }),
    {
        let ghost r0 = *registry;
        let frame = self.umem_manager.alloc_frame(registry);
        proof {
            lemma_registered_same_queues(self.producer, r0, *registry);
        }
        let frame_addr = match frame {
            Some(a) => a,
            None => {
                return Err(Error::Other("No free frames for TX"));
            },
        };
        let start = frame_addr as usize;
        if payload.len() > mem.umem.len() || start > mem.umem.len() - payload.len() || payload.len() > 0xffff_ffff {
            return Err(Error::TooBigPacket(payload.len()));
        }
        let ghost h0 = self.xsk.tx.handed(&mem.tx) - 1;
        let ghost t0 = mem.tx;
        proof {
            lemma_ring_size_facts(mem.tx.size());
        }
        let cur = slot.desc(&self.xsk.tx, &mem.tx);
        proof {
            let h1 = choose|h: int| t0.produced@ <= h < self.xsk.tx.handed(&t0) && slot.idx == wrap32(h)
                && cur == t0.ring@[h % (t0.size() as int)];
            if h1 <= h0 {
                lemma_wrap_injective(h0, h1);
            } else {
                lemma_wrap_injective(h1, h0);
            }
            assert(cur == t0.ring@[h0 % (t0.size() as int)]);
        }
        slot.write(
            &self.xsk.tx,
            &mut mem.tx,
            XdpDesc { addr: frame_addr as u64, len: payload.len() as u32, options: cur.options },
        );
        proof {
            let h2 = choose|h: int| t0.produced@ <= h < self.xsk.tx.handed(&t0) && slot.idx == wrap32(h)
                && mem.tx.ring@ == t0.ring@.update(
                    h % (t0.size() as int),
                    XdpDesc { addr: frame_addr as u64, len: payload.len() as u32, options: cur.options },
                );
            if h2 <= h0 {
                lemma_wrap_injective(h0, h2);
            } else {
                lemma_wrap_injective(h2, h0);
            }
        }
        let ghost u0 = mem.umem@;
        let ghost m1 = *mem;
        let mut i: usize = 0;
        while i < payload.len()
            invariant
                mem.rx == m1.rx,
                mem.tx == m1.tx,
                mem.fill == m1.fill,
                mem.comp == m1.comp,
                i <= payload@.len(),
                start + payload@.len() <= u0.len(),
                mem.umem@.len() == u0.len(),
                mem.umem@ == u0.take(start as int) + payload@.take(i as int) + u0.skip(start + i),
            decreases payload@.len() - i,
        {
            assert(start + i < mem.umem.len());
            mem.umem.set(start + i, payload[i]);
            i = i + 1;
            proof {
                assert(mem.umem@ =~= u0.take(start as int) + payload@.take(i as int) + u0.skip(start + i));
            }
        }
        proof {
            assert(payload@.take(payload@.len() as int) =~= payload@);
        }
        proof {
            let h = old(self).xsk.tx.handed(&old(mem).tx) - 1;
            assert(tx_packet_written(*old(mem), *mem, h, payload@)) by {
                reveal(tx_packet_written);
                let a = start as int;
                assert(0 <= a && a + payload@.len() <= old(mem).umem@.len());
            }
        }
        let mut stats = self.stats;
        stats.tx_bytes = stats.tx_bytes.wrapping_add(payload.len() as u64);
        stats.tx_packets = stats.tx_packets.wrapping_add(1);
        self.stats = stats;
        Ok(())
    }

    /// `send_inner` seen from `send`: what it keeps, and where it puts the packet.
    fn send_at(&mut self, slot: TxSlot, payload: &[u8], mem: &mut XskMem, registry: &mut ConsumerRegistry) -> (r: Result<(), Error>)
        requires
            old(self).inv(&*old(mem), &*old(registry)),
            old(mem).tx.produced@ < old(self).xsk.tx.handed(&old(mem).tx),
            slot.idx == wrap32(old(self).xsk.tx.handed(&old(mem).tx) - 1),
        ensures
            final(self).inv(&*final(mem), &*final(registry)),
            final(self).ctx == old(self).ctx,
            final(self).xsk == old(self).xsk,
            final(mem).rx == old(mem).rx,
            final(mem).fill == old(mem).fill,
            final(mem).tx.produced@ == old(mem).tx.produced@,
            r is Ok ==> tx_packet_written(*old(mem), *final(mem), old(self).xsk.tx.handed(&old(mem).tx) - 1, payload@),
            r matches Err(e) ==> e != Error::NoMemory,
            final(self).umem_manager.consumer.cache() == pop_step(
                old(self).umem_manager.consumer.cache(),
                old(registry).queues(),
            ).1,
            ({
                let st = pop_step(old(self).umem_manager.consumer.cache(), old(registry).queues());
                let a = (st.0->0 as u32) as int;
                &&& (r is Ok <==> (st.0 is Some && a + payload@.len() <= old(mem).umem@.len()
                    && payload@.len() <= u32::MAX))
                &&& (st.0 is None ==> r == Err::<(), Error>(Error::Other("No free frames for TX")))
                &&& (st.0 is Some && r is Err ==> r == Err::<(), Error>(Error::TooBigPacket(payload@.len() as usize)))
            }),
    {
        self.send_inner(slot, payload, mem, registry)
    }

    /// Submits the TX descriptors handed out so far and gives the frames of
    /// completed transmissions back to the channel of free frames. (Waking the
    /// kernel up with `sendto` is left to the caller.)
    pub fn flush(&mut self, mem: &mut XskMem, registry: &mut ConsumerRegistry)
        requires
            old(self).inv(&*old(mem), &*old(registry)),
            old(self).flush_room(&*old(registry)),
        ensures
            final(self).inv(&*final(mem), &*final(registry)),
            final(self).ctx == old(self).ctx,
            final(self).stats == old(self).stats,
            final(self).xsk.rx == old(self).xsk.rx,
            final(self).xsk.tx.to_flush == 0,
            final(self).xsk.tx.cached@ == old(self).xsk.tx.cached@,
            final(self).xsk.tx.tx == old(self).xsk.tx.tx,
            final(self).xsk.tx.handed(&final(mem).tx) == old(self).xsk.tx.handed(&old(mem).tx),
            final(self).umem_manager.consumer == old(self).umem_manager.consumer,
            final(mem).tx.consumed@ == old(mem).tx.consumed@,
            final(mem).rx == old(mem).rx,
            final(mem).fill == old(mem).fill,
            final(mem).umem == old(mem).umem,
            final(mem).tx.ring@ == old(mem).tx.ring@,
            final(mem).tx.log@ == old(mem).tx.log@ + Seq::new(
                old(self).xsk.tx.to_flush as nat,
                |k: int| old(mem).tx.ring@[(old(mem).tx.produced@ + k) % (old(mem).tx.size() as int)],
            ),
            ({
                let c = peek_count(old(self).umem_manager.umem.cq.ring, old(mem).comp, 64);
                let p0 = old(self).umem_manager.umem.cq.ring.peeked@;
                &&& final(mem).comp.consumed@ == old(mem).comp.consumed@ + c
                &&& in_flight(final(self).producer, *final(registry)) == in_flight(old(self).producer, *old(registry))
                    + Seq::new(c, |j: int| old(mem).comp.log@[p0 + j] as usize)
            }),
    {
        self.xsk.tx_mut().sync(&mut mem.tx);
        let _ = complete_tx(&mut self.umem_manager.umem, &mut mem.comp, &mut self.producer, registry);
    }

    /// Sends `packet` through the next TX descriptor; when none is free the
    /// socket is flushed and one more is tried, and `NoMemory` comes when
    /// there is still none. The packet goes into a free frame, and the
    /// descriptor names that frame.
    pub fn send(&mut self, packet: &[u8], mem: &mut XskMem, registry: &mut ConsumerRegistry) -> (r: Result<(), Error>)
        requires
            old(self).inv(&*old(mem), &*old(registry)),
            old(self).xsk.tx.cached@.len() == 0 ==> old(self).flush_room(&*old(registry)),
        ensures
            final(self).inv(&*final(mem), &*final(registry)),
            final(self).ctx == old(self).ctx,
            final(mem).rx == old(mem).rx,
            final(mem).fill == old(mem).fill,
            r is Ok ==> final(self).xsk.tx.handed(&final(mem).tx) == old(self).xsk.tx.handed(&old(mem).tx) + 1,
            r is Ok ==> tx_packet_written(*old(mem), *final(mem), old(self).xsk.tx.handed(&old(mem).tx), packet@),
            r == Err::<(), Error>(Error::NoMemory) ==> final(self).xsk.tx.handed(&final(mem).tx)
                == old(self).xsk.tx.handed(&old(mem).tx),
            ({
                let got = old(self).xsk.tx.cached@.len() > 0 || old(mem).tx.consumed@ + old(mem).tx.size()
                    - old(self).xsk.tx.tx.reserved@ >= crate::af_xdp::wrapper::TX_BATCH_SIZE;
                let st = pop_step(old(self).umem_manager.consumer.cache(), old(registry).queues());
                let a = (st.0->0 as u32) as int;
                &&& (!got <==> r == Err::<(), Error>(Error::NoMemory))
                &&& (got ==> (r is Ok <==> (st.0 is Some && a + packet@.len() <= old(mem).umem@.len()
                    && packet@.len() <= u32::MAX)))
                &&& (got && st.0 is None ==> r == Err::<(), Error>(Error::Other("No free frames for TX")))
                &&& (got && st.0 is Some && r is Err ==> r == Err::<(), Error>(
                    Error::TooBigPacket(packet@.len() as usize),
                ))
                &&& (got ==> final(self).umem_manager.consumer.cache() == st.1)
            }),
    {
        let ghost h0 = self.xsk.tx.handed(&mem.tx);
        let slot = match self.xsk.tx_mut().advance(&mut mem.tx) {
            Some(slot) => slot,
            None => {
                self.flush(mem, registry);
                match self.xsk.tx_mut().advance(&mut mem.tx) {
                    Some(slot) => slot,
                    None => {
                        return Err(Error::NoMemory);
                    },
                }
            },
        };
        proof {
            assert(self.xsk.tx.handed(&mem.tx) == h0 + 1);
            assert(slot.idx == wrap32(h0));
            assert(mem.tx.produced@ <= h0);
        }
        let ghost m1 = *mem;
        let res = self.send_at(slot, packet, mem, registry);
        proof {
            if res is Ok {
                lemma_tx_packet_written_from(*old(mem), m1, *mem, h0, packet@);
            }
        }
        res
    }
}

/// Puts the UMEM's `num_frames` frames of `frame_size` bytes in the channel of
/// free frames, frame after frame by address, and flushes: the frames a new
/// socket starts with.
pub fn seed_free_frames(
    producer: &mut Producer<BufferDesc>,
    registry: &mut ConsumerRegistry,
    num_frames: u32,
    frame_size: u32,
)
    requires
        old(registry).wf(),
        registered(*old(producer), *old(registry)),
        old(producer).batch().len() <= 16,
        num_frames * frame_size <= u32::MAX,
        16 * room(*old(producer), *old(registry)) >= old(producer).batch().len() + num_frames,
        old(producer).batch().len() + num_frames > 0 ==> room(*old(producer), *old(registry)) > 0,
    ensures
        final(registry).wf(),
        registered(*final(producer), *final(registry)),
        final(producer).batch().len() <= 16,
        in_flight(*final(producer), *final(registry)) == in_flight(*old(producer), *old(registry)) + Seq::new(
            num_frames as nat,
            |i: int| (i * frame_size) as usize,
        ),
{
    let ghost f0 = in_flight(*producer, *registry);
    let mut i: u32 = 0;
    while i < num_frames
        invariant
            i <= num_frames,
            num_frames * frame_size <= u32::MAX,
            registry.wf(),
            registered(*producer, *registry),
            producer.batch().len() <= 16,
            i > 0 ==> producer.batch().len() > 0,
            16 * room(*producer, *registry) >= producer.batch().len() + (num_frames - i),
            in_flight(*producer, *registry) == f0 + Seq::new(i as nat, |t: int| (t * frame_size) as usize),
        decreases num_frames - i,
    {
        assert(i * frame_size <= num_frames * frame_size) by (nonlinear_arith)
            requires
                i <= num_frames,
        ;
        proof {
            lemma_room_can_flush(*producer, *registry);
        }
        let addr = (i as usize) * (frame_size as usize);
        producer.push(registry, addr);
        proof {
            assert(in_flight(*producer, *registry) =~= f0 + Seq::new((i + 1) as nat, |t: int| (t * frame_size) as usize));
        }
        i = i + 1;
    }
    proof {
        if producer.batch().len() > 0 {
            lemma_room_can_flush(*producer, *registry);
        }
    }
    producer.flush(registry);
}

} // verus!
