//! Batched access to the RX and TX rings of an AF_XDP socket.

use vstd::prelude::*;
use arrayvec::ArrayVec;
use std::collections::VecDeque;
use vstd::arithmetic::div_mod::{lemma_mod_bound, lemma_small_mod};
use crate::af_xdp::compat::{
    xsk_prod_nb_free, counter_modulus, lemma_ring_size_facts, lemma_wrap_add, lemma_wrap_sub, wrap32,
    xsk_ring_cons__peek, xsk_ring_cons__read, xsk_ring_cons__release, xsk_ring_prod__reserve,
    xsk_ring_prod__submit, xsk_ring_prod__write, XskRingCons, XskRingProd, XskShared,
};
use crate::capvec::{desc_cache_items, desc_cache_new, desc_cache_pop, desc_cache_push};

verus! {

/// Number of descriptors taken from the RX ring at once.
pub const RX_BATCH_SIZE: u32 = 32;

/// Number of TX descriptors reserved at once.
pub const TX_BATCH_SIZE: u32 = 64;

/// An RX/TX ring descriptor (`struct xdp_desc`): a frame offset in the UMEM,
/// the packet length and option bits.
#[derive(Clone, Copy, Debug, PartialEq, Eq)]
pub struct XdpDesc {
    pub addr: u64,
    pub len: u32,
    pub options: u32,
}

/// A received descriptor as the socket hands it on.
#[derive(Clone, Copy, Debug, PartialEq, Eq)]
pub struct XdpDescData {
    pub offset: u64,
    pub len: u32,
    pub options: u32,
}

/// The data of a ring descriptor.
pub open spec fn desc_data(d: XdpDesc) -> XdpDescData {
    XdpDescData { offset: d.addr, len: d.len, options: d.options }
}

/// The RX ring of a socket, with the descriptors taken from it and not yet
/// handed out.
pub struct RxRing {
    pub rx: XskRingCons,
    pub cached: ArrayVec<XdpDescData, 32>,
}

impl RxRing {
    /// Items of the cache.
    pub open spec fn cache(&self) -> Seq<XdpDescData> {
        desc_cache_items(self.cached)
    }

    /// Number of descriptors handed out so far, counted from the start of the
    /// ring's history.
    pub open spec fn delivered(&self, s: &XskShared<XdpDesc>) -> int {
        s.consumed@ - self.cache().len()
    }

    /// The cache holds, last first, the most recently released descriptors
    /// that were not handed out yet.
    pub open spec fn inv(&self, s: &XskShared<XdpDesc>) -> bool {
        &&& self.rx.inv(s)
        &&& self.rx.held(s) == 0
        &&& self.cache().len() <= s.consumed@
        &&& forall|j: int|
            0 <= j < self.cache().len() ==> #[trigger] self.cache()[j] == desc_data(
                s.log@[s.consumed@ - 1 - j],
            )
    }

    /// An RX ring with an empty cache.
    pub fn new(rx: XskRingCons, s: &XskShared<XdpDesc>) -> (r: Self)
        requires
            rx.inv(s),
            rx.held(s) == 0,
        ensures
            r.inv(s),
            r.rx == rx,
            r.cache().len() == 0,
    {
        RxRing { rx, cached: desc_cache_new() }
    }

    /// The next received descriptor: the last cached one, or else the first of
    /// a batch of at most `RX_BATCH_SIZE` taken from the ring. Descriptors
    /// come out in the order the kernel published them.
    pub fn advance(&mut self, s: &mut XskShared<XdpDesc>) -> (r: Option<XdpDescData>)
        requires
            old(self).inv(&*old(s)),
        ensures
            final(self).inv(&*final(s)),
            final(s).produced@ == old(s).produced@,
            final(s).producer == old(s).producer,
            final(s).log@ == old(s).log@,
            final(s).ring@ == old(s).ring@,
            old(self).cache().len() > 0 ==> final(s).consumed@ == old(s).consumed@,
            old(self).cache().len() == 0 ==> final(s).consumed@ == old(s).consumed@ + crate::af_xdp::peek_count(
                old(self).rx,
                *old(s),
                RX_BATCH_SIZE as nat,
            ),
            rx_step(*old(self), *old(s), *final(self), *final(s), r),
            match r {
                Some(d) => {
                    &&& d == desc_data(old(s).log@[old(self).delivered(&*old(s))])
                    &&& final(self).delivered(&*final(s)) == old(self).delivered(&*old(s)) + 1
                },
                None => {
                    &&& old(self).cache().len() == 0
                    &&& old(s).produced@ == old(s).consumed@
                    &&& *final(s) == *old(s)
                    &&& final(self).delivered(&*final(s)) == old(self).delivered(&*old(s))
                },
            },
    {
        if let Some(desc) = desc_cache_pop(&mut self.cached) {
            return Some(desc);
        }
        let mut idx_rx: u32 = 0;
        let ghost c0 = s.consumed@;
        let rcvd = xsk_ring_cons__peek(&mut self.rx, s, RX_BATCH_SIZE, &mut idx_rx);
        if rcvd == 0 {
            return None;
        }
        proof {
            lemma_ring_size_facts(s.size());
            lemma_small_mod(0, counter_modulus() as nat);
            assert(idx_rx == s.consumer);
        }
        let mut k: u32 = rcvd;
        while k > 0
            invariant
                0 <= k <= rcvd <= RX_BATCH_SIZE,
                self.rx.inv(s),
                self.rx.held(s) == rcvd,
                s.consumed@ == c0,
                idx_rx == s.consumer,
                desc_cache_items(self.cached).len() == rcvd - k,
                forall|j: int|
                    0 <= j < rcvd - k ==> #[trigger] desc_cache_items(self.cached)[j] == desc_data(
                        s.log@[c0 + rcvd - 1 - j],
                    ),
            decreases k,
        {
            k = k - 1;
            proof {
                lemma_wrap_add(s.consumed@ as int, k);
                lemma_wrap_sub(s.consumed@ + k, s.consumed@ as int);
                lemma_mod_bound(s.consumed@ as int, counter_modulus());
            }
            let i = idx_rx.wrapping_add(k);
            let d = xsk_ring_cons__read(&self.rx, s, i);
            desc_cache_push(
                &mut self.cached,
                XdpDescData { offset: d.addr, len: d.len, options: d.options },
            );
        }
        xsk_ring_cons__release(&self.rx, s, rcvd);
        desc_cache_pop(&mut self.cached)
    }
}


/// One `RxRing::advance` from ring `r0` on `s0` to `r1` on `s1`, giving
/// `out`: what the call states of the ring, the shared memory and the
/// descriptor handed out.
pub open spec fn rx_step(
    r0: RxRing,
    s0: XskShared<XdpDesc>,
    r1: RxRing,
    s1: XskShared<XdpDesc>,
    out: Option<XdpDescData>,
) -> bool {
    &&& r1.inv(&s1)
    &&& s1.produced@ == s0.produced@
    &&& s1.log@ == s0.log@
    &&& r0.cache().len() > 0 ==> s1.consumed@ == s0.consumed@
    &&& r0.cache().len() == 0 ==> s1.consumed@ == s0.consumed@ + crate::af_xdp::peek_count(
        r0.rx,
        s0,
        RX_BATCH_SIZE as nat,
    )
    &&& match out {
        Some(d) => {
            &&& d == desc_data(s0.log@[r0.delivered(&s0)])
            &&& r1.delivered(&s1) == r0.delivered(&s0) + 1
        },
        None => {
            &&& r0.cache().len() == 0
            &&& s0.produced@ == s0.consumed@
            &&& s1 == s0
            &&& r1.delivered(&s1) == r0.delivered(&s0)
        },
    }
}

/// A batch of received descriptors is released once and handed out in ring
/// order: from an empty cache, a run of `advance` calls no longer than the
/// batch the first one takes (`q` entries) releases those `q` entries at the
/// first call and no more after, and the `k`-th call hands out the `k`-th
/// descriptor after the ones released before.
pub proof fn law_rx_batch_in_order(
    rs: Seq<RxRing>,
    ss: Seq<XskShared<XdpDesc>>,
    outs: Seq<Option<XdpDescData>>,
)
    requires
        rs.len() == outs.len() + 1,
        ss.len() == outs.len() + 1,
        rs[0].inv(&ss[0]),
        rs[0].cache().len() == 0,
        outs.len() <= crate::af_xdp::peek_count(rs[0].rx, ss[0], RX_BATCH_SIZE as nat),
        forall|k: int| #![trigger outs[k]] 0 <= k < outs.len() ==> rx_step(rs[k], ss[k], rs[k + 1], ss[k + 1], outs[k]),
    ensures
        forall|k: int|
            0 < k <= outs.len() ==> #[trigger] ss[k].consumed@ == ss[0].consumed@ + crate::af_xdp::peek_count(
                rs[0].rx,
                ss[0],
                RX_BATCH_SIZE as nat,
            ),
        forall|k: int|
            0 <= k < outs.len() ==> #[trigger] outs[k] == Some(desc_data(ss[0].log@[ss[0].consumed@ + k])),
    decreases outs.len(),
{
    let n = outs.len();
    if n > 0 {
        let q = crate::af_xdp::peek_count(rs[0].rx, ss[0], RX_BATCH_SIZE as nat);
        law_rx_batch_in_order(rs.take(n as int), ss.take(n as int), outs.take(n - 1));
        assert forall|k: int| #![trigger outs.take(n - 1)[k]] 0 <= k < n - 1 implies rx_step(rs.take(n as int)[k], ss.take(n as int)[k], rs.take(n as int)[k + 1], ss.take(n as int)[k + 1], outs.take(n - 1)[k]) by {
            assert(outs.take(n - 1)[k] == outs[k]);
            assert(rx_step(rs[k], ss[k], rs[k + 1], ss[k + 1], outs[k]));
        }
        assert(outs[0] == outs[0]);
        assert(rx_step(rs[0], ss[0], rs[1], ss[1], outs[0]));
        // Where the run stands before its last call.
        let j = n - 1;
        assert(outs[j] == outs[j]);
        assert(rx_step(rs[j], ss[j], rs[j + 1], ss[j + 1], outs[j]));
        assert forall|k: int| 0 <= k < j implies (#[trigger] outs[k]) is Some by {
            assert(outs.take(n - 1)[k] == outs[k]);
        }
        if j == 0 {
            assert(rs[0].rx.held(&ss[0]) == 0);
            assert(q > 0);
            assert(ss[0].produced@ > ss[0].consumed@);
        } else {
            assert(ss[j].consumed@ == ss[0].consumed@ + q) by {
                assert(ss.take(n as int)[j] == ss[j]);
            }
            assert(outs.take(n - 1)[j - 1] == outs[j - 1]);
            assert(rs[j].delivered(&ss[j]) == ss[0].consumed@ + j) by {
                lemma_rx_delivered(rs, ss, outs, j);
            }
            assert(rs[j].cache().len() > 0);
        }
        assert forall|k: int| 0 < k <= n implies #[trigger] ss[k].consumed@ == ss[0].consumed@ + q by {
            if k < n {
                assert(ss.take(n as int)[k] == ss[k]);
            }
        }
        assert forall|k: int| 0 <= k < n implies #[trigger] outs[k] == Some(desc_data(ss[0].log@[ss[0].consumed@ + k])) by {
            if k < n - 1 {
                assert(outs.take(n - 1)[k] == outs[k]);
            } else {
                lemma_rx_delivered(rs, ss, outs, k);
                lemma_rx_log(ss, rs, outs, k);
            }
        }
    }
}

/// Along a run of `advance` calls that all hand a descriptor out, starting
/// from an empty cache, the delivered count grows by one per call.
proof fn lemma_rx_delivered(
    rs: Seq<RxRing>,
    ss: Seq<XskShared<XdpDesc>>,
    outs: Seq<Option<XdpDescData>>,
    j: int,
)
    requires
        rs.len() == outs.len() + 1,
        ss.len() == outs.len() + 1,
        rs[0].cache().len() == 0,
        0 <= j <= outs.len(),
        forall|k: int| #![trigger outs[k]] 0 <= k < outs.len() ==> rx_step(rs[k], ss[k], rs[k + 1], ss[k + 1], outs[k]),
        forall|k: int| 0 <= k < j ==> (#[trigger] outs[k]) is Some,
    ensures
        rs[j].delivered(&ss[j]) == ss[0].consumed@ + j,
    decreases j,
{
    if j > 0 {
        lemma_rx_delivered(rs, ss, outs, j - 1);
        assert(outs[j - 1] is Some);
    }
}

/// Along such a run, the log stays the one of the start.
proof fn lemma_rx_log(
    ss: Seq<XskShared<XdpDesc>>,
    rs: Seq<RxRing>,
    outs: Seq<Option<XdpDescData>>,
    j: int,
)
    requires
        rs.len() == outs.len() + 1,
        ss.len() == outs.len() + 1,
        0 <= j <= outs.len(),
        forall|k: int| #![trigger outs[k]] 0 <= k < outs.len() ==> rx_step(rs[k], ss[k], rs[k + 1], ss[k + 1], outs[k]),
    ensures
        ss[j].log@ == ss[0].log@,
    decreases j,
{
    if j > 0 {
        lemma_rx_log(ss, rs, outs, j - 1);
        assert(outs[j - 1] == outs[j - 1]);
    }
}

/// The UMEM's fill ring, seen from this process: frame addresses handed to
/// the kernel to receive into.
pub struct FqMut {
    pub ring: XskRingProd,
}

impl FqMut {
    /// Free entries, at least as many as `nb` when the ring has them
    /// (`xsk_prod_nb_free`).
    pub fn nb_free(&mut self, s: &XskShared<u64>, nb: u32) -> (n: u32)
        requires
            old(self).ring.inv(s),
        ensures
            final(self).ring.inv(s),
            final(self).ring.reserved@ == old(self).ring.reserved@,
            final(self).ring.cached_prod == old(self).ring.cached_prod,
            n as nat == final(self).ring.cached_free(),
            old(self).ring.cached_free() >= nb ==> *final(self) == *old(self),
            old(self).ring.cached_free() < nb ==> final(self).ring.limit@ == s.consumed@ + s.size(),
    {
        xsk_prod_nb_free(&mut self.ring, s, nb)
    }

    /// Reserves `nb` entries: `(nb, first counter value)` when that many are
    /// free, `(0, 0)` otherwise.
    pub fn reserve(&mut self, s: &XskShared<u64>, nb: u32) -> (r: (u32, u32))
        requires
            old(self).ring.inv(s),
        ensures
            final(self).ring.inv(s),
            r.0 == 0 || r.0 == nb,
            r.0 == nb <==> (old(self).ring.cached_free() >= nb || s.consumed@ + s.size() - old(self).ring.reserved@ >= nb),
            r.0 == nb ==> r.1 == old(self).ring.cached_prod && final(self).ring.reserved@ == old(self).ring.reserved@ + nb,
            r.0 != nb ==> r.1 == 0 && final(self).ring.reserved@ == old(self).ring.reserved@,
    {
        let mut idx: u32 = 0;
        let reserved = xsk_ring_prod__reserve(&mut self.ring, s, nb, &mut idx);
        (reserved, idx)
    }

    /// Stores frame address `addr` in the reserved entry of counter value
    /// `idx` (through `xsk_ring_prod__fill_addr`).
    pub fn set_addr(&self, s: &mut XskShared<u64>, idx: u32, addr: u64)
        requires
            self.ring.inv(&*old(s)),
            vstd::wrapping::u32_specs::wrapping_sub(idx, old(s).producer) < self.ring.outstanding(&*old(s)),
        ensures
            self.ring.inv(&*final(s)),
            final(s).producer == old(s).producer,
            final(s).consumer == old(s).consumer,
            final(s).produced@ == old(s).produced@,
            final(s).consumed@ == old(s).consumed@,
            final(s).log@ == old(s).log@,
            final(s).ring@ == old(s).ring@.update(
                (old(s).produced@ + vstd::wrapping::u32_specs::wrapping_sub(idx, old(s).producer))
                    % (old(s).size() as int),
                addr,
            ),
    {
        xsk_ring_prod__write(&self.ring, s, idx, addr);
    }

    /// Publishes `nb` filled entries to the kernel.
    pub fn submit(&mut self, s: &mut XskShared<u64>, nb: u32)
        requires
            old(self).ring.inv(&*old(s)),
            nb <= old(self).ring.outstanding(&*old(s)),
        ensures
            *final(self) == *old(self),
            final(self).ring.inv(&*final(s)),
            final(s).produced@ == old(s).produced@ + nb,
            final(s).consumed@ == old(s).consumed@,
            final(s).ring@ == old(s).ring@,
            final(s).log@ == old(s).log@ + Seq::new(
                nb as nat,
                |k: int| old(s).ring@[(old(s).produced@ + k) % (old(s).size() as int)],
            ),
    {
        xsk_ring_prod__submit(&self.ring, s, nb);
    }
}

/// The UMEM's completion ring, seen from this process: addresses of frames
/// the kernel has sent.
pub struct CqMut {
    pub ring: XskRingCons,
}

impl CqMut {
    /// Takes up to `nb` completed entries: `(count, first counter value)`;
    /// the counter value is 0 when none was taken.
    pub fn peek(&mut self, s: &XskShared<u64>, nb: u32) -> (r: (u32, u32))
        requires
            old(self).ring.inv(s),
        ensures
            final(self).ring.inv(s),
            r.0 <= nb,
            final(self).ring.peeked@ == old(self).ring.peeked@ + r.0,
            old(self).ring.cached_avail() > 0 ==> r.0 as nat == if old(self).ring.cached_avail() > nb { nb as nat } else { old(self).ring.cached_avail() },
            old(self).ring.cached_avail() == 0 ==> r.0 as nat == if s.produced@ - old(self).ring.peeked@ > nb { nb as int } else { s.produced@ - old(self).ring.peeked@ },
            r.0 > 0 ==> r.1 == old(self).ring.cached_cons,
            r.0 == 0 ==> r.1 == 0,
    {
        let mut idx: u32 = 0;
        let peeked = xsk_ring_cons__peek(&mut self.ring, s, nb, &mut idx);
        (peeked, idx)
    }

    /// The completed address at counter value `idx`.
    pub fn get_addr(&self, s: &XskShared<u64>, idx: u32) -> (a: u64)
        requires
            self.ring.inv(s),
            vstd::wrapping::u32_specs::wrapping_sub(idx, s.consumer) < self.ring.held(s),
        ensures
            a == s.log@[s.consumed@ + vstd::wrapping::u32_specs::wrapping_sub(idx, s.consumer)],
    {
        xsk_ring_cons__read(&self.ring, s, idx)
    }

    /// Hands `nb` completed entries back to the kernel.
    pub fn release(&mut self, s: &mut XskShared<u64>, nb: u32)
        requires
            old(self).ring.inv(&*old(s)),
            nb <= old(self).ring.held(&*old(s)),
        ensures
            *final(self) == *old(self),
            final(self).ring.inv(&*final(s)),
            final(s).consumed@ == old(s).consumed@ + nb,
            final(s).produced@ == old(s).produced@,
            final(s).ring@ == old(s).ring@,
            final(s).log@ == old(s).log@,
    {
        xsk_ring_cons__release(&self.ring, s, nb);
    }
}

/// The fill and completion rings of a UMEM.
pub struct Umem {
    pub fq: FqMut,
    pub cq: CqMut,
}

impl Umem {
    /// The UMEM's rings, as `xsk_umem__create` sets them up: the fill ring
    /// with all of its entries free, the completion ring with nothing seen.
    pub fn new(fill: &XskShared<u64>, comp: &XskShared<u64>) -> (u: Self)
        requires
            fill.wf(),
            comp.wf(),
        ensures
            u.fq.ring.inv(fill),
            u.fq.ring.outstanding(fill) == 0,
            u.cq.ring.inv(comp),
            u.cq.ring.held(comp) == 0,
    {
        Umem { fq: FqMut { ring: XskRingProd::attach(fill) }, cq: CqMut { ring: XskRingCons::attach(comp) } }
    }

    /// The fill ring.
    pub fn ring_prod_mut(&mut self) -> (r: &mut FqMut)
        ensures
            *r == old(self).fq,
            final(self).fq == *final(r),
            final(self).cq == old(self).cq,
    {
        &mut self.fq
    }

    /// The completion ring.
    pub fn ring_cons_mut(&mut self) -> (r: &mut CqMut)
        ensures
            *r == old(self).cq,
            final(self).cq == *final(r),
            final(self).fq == old(self).fq,
    {
        &mut self.cq
    }
}

/// A reserved TX descriptor, named by its counter value.
#[derive(Clone, Copy, Debug, PartialEq, Eq)]
pub struct TxSlot {
    pub idx: u32,
}

/// The TX ring of a socket, with descriptors reserved in batches and handed
/// out one at a time; `to_flush` counts those handed out and not yet
/// submitted.
pub struct TxRing {
    pub tx: XskRingProd,
    pub cached: VecDeque<u32>,
    pub to_flush: u32,
}

impl TxRing {
    /// Number of descriptors handed out so far, counted from the start of the
    /// ring's history.
    pub open spec fn handed(&self, s: &XskShared<XdpDesc>) -> int {
        s.produced@ + self.to_flush
    }

    /// The cache holds the counter values of the reserved descriptors that
    /// were not handed out yet, in order; the handed-out ones are
    /// submitted at the next `sync`.
    pub open spec fn inv(&self, s: &XskShared<XdpDesc>) -> bool {
        &&& self.tx.inv(s)
        &&& self.to_flush + self.cached@.len() == self.tx.outstanding(s)
        &&& forall|j: int|
            0 <= j < self.cached@.len() ==> #[trigger] self.cached@[j] == wrap32(
                s.produced@ + self.to_flush + j,
            )
    }

    /// A TX ring with nothing reserved beyond what the handle holds.
    pub fn new(tx: XskRingProd, s: &XskShared<XdpDesc>) -> (r: Self)
        requires
            tx.inv(s),
            tx.outstanding(s) == 0,
        ensures
            r.inv(s),
            r.tx == tx,
            r.to_flush == 0,
            r.cached@.len() == 0,
    {
        TxRing { tx, cached: VecDeque::new(), to_flush: 0 }
    }

    /// Submits the descriptors handed out since the last call.
    pub fn sync(&mut self, s: &mut XskShared<XdpDesc>)
        requires
            old(self).inv(&*old(s)),
        ensures
            final(self).inv(&*final(s)),
            final(self).to_flush == 0,
            final(self).tx == old(self).tx,
            final(self).cached@ == old(self).cached@,
            final(self).handed(&*final(s)) == old(self).handed(&*old(s)),
            final(s).produced@ == old(s).produced@ + old(self).to_flush,
            final(s).consumed@ == old(s).consumed@,
            final(s).ring@ == old(s).ring@,
            final(s).log@ == old(s).log@ + Seq::new(
                old(self).to_flush as nat,
                |k: int| old(s).ring@[(old(s).produced@ + k) % (old(s).size() as int)],
            ),
    {
        if self.to_flush == 0 {
            proof {
                assert(s.log@ + Seq::new(0, |k: int| s.ring@[(s.produced@ + k) % (s.size() as int)])
                    =~= s.log@);
            }
            return;
        }
        xsk_ring_prod__submit(&self.tx, s, self.to_flush);
        self.to_flush = 0;
    }

    /// The next descriptor to fill: the first cached one, or else (after
    /// submitting what was handed out) the first of `TX_BATCH_SIZE` newly
    /// reserved ones. `None` when the ring has fewer than `TX_BATCH_SIZE`
    /// free entries.
    pub fn advance(&mut self, s: &mut XskShared<XdpDesc>) -> (r: Option<TxSlot>)
        requires
            old(self).inv(&*old(s)),
        ensures
            final(self).inv(&*final(s)),
            final(s).consumed@ == old(s).consumed@,
            final(s).ring@ == old(s).ring@,
            final(s).produced@ <= old(self).handed(&*old(s)),
            old(self).cached@.len() > 0 ==> *final(s) == *old(s),
            r is None <==> (old(self).cached@.len() == 0 && old(s).consumed@ + old(s).size()
                - old(self).tx.reserved@ < TX_BATCH_SIZE),
            match r {
                Some(slot) => {
                    &&& slot.idx == wrap32(old(self).handed(&*old(s)))
                    &&& final(self).handed(&*final(s)) == old(self).handed(&*old(s)) + 1
                },
                None => {
                    &&& final(self).handed(&*final(s)) == old(self).handed(&*old(s))
                    &&& final(self).to_flush == 0
                    &&& final(self).cached@.len() == 0
                    &&& final(self).tx.reserved@ == old(self).tx.reserved@
                },
            },
    {
        if let Some(desc) = self.cached.pop_front() {
            proof {
                lemma_ring_size_facts(s.size());
            }
            self.to_flush = self.to_flush + 1;
            return Some(TxSlot { idx: desc });
        }
        self.sync(s);
        let mut idx_tx: u32 = 0;
        let rcvd = xsk_ring_prod__reserve(&mut self.tx, s, TX_BATCH_SIZE, &mut idx_tx);
        if rcvd == 0 {
            return None;
        }
        let ghost start = s.produced@;
        let mut k: u32 = 0;
        while k < rcvd
            invariant
                0 <= k <= rcvd == TX_BATCH_SIZE,
                self.tx.inv(s),
                self.to_flush == 0,
                self.tx.outstanding(s) == rcvd,
                s.produced@ == start,
                idx_tx == wrap32(start + k),
                self.cached@.len() == k,
                forall|j: int| 0 <= j < k ==> #[trigger] self.cached@[j] == wrap32(start + j),
            decreases rcvd - k,
        {
            self.cached.push_back(idx_tx);
            proof {
                lemma_wrap_add(start + k, 1);
            }
            idx_tx = idx_tx.wrapping_add(1);
            k = k + 1;
        }
        let first = self.cached.pop_front();
        self.to_flush = self.to_flush + 1;
        match first {
            Some(desc) => Some(TxSlot { idx: desc }),
            None => None,
        }
    }
}

impl TxSlot {
    /// The descriptor currently stored at a handed-out slot.
    pub fn desc(&self, ring: &TxRing, s: &XskShared<XdpDesc>) -> (d: XdpDesc)
        requires
            ring.inv(s),
            exists|h: int| s.produced@ <= h < ring.handed(s) && self.idx == wrap32(h),
        ensures
            exists|h: int|
                s.produced@ <= h < ring.handed(s) && self.idx == wrap32(h) && d == s.ring@[h % (s.size() as int)],
    {
        let ghost h = choose|h: int| s.produced@ <= h < ring.handed(s) && self.idx == wrap32(h);
        proof {
            lemma_ring_size_facts(s.size());
            crate::af_xdp::compat::lemma_ring_index(h, ring.tx.size, ring.tx.mask);
        }
        s.ring[(self.idx & ring.tx.mask) as usize]
    }

    /// Writes the descriptor of a handed-out slot.
    pub fn write(&self, ring: &TxRing, s: &mut XskShared<XdpDesc>, desc: XdpDesc)
        requires
            ring.inv(&*old(s)),
            exists|h: int| old(s).produced@ <= h < ring.handed(&*old(s)) && self.idx == wrap32(h),
        ensures
            ring.inv(&*final(s)),
            final(s).produced@ == old(s).produced@,
            final(s).consumed@ == old(s).consumed@,
            final(s).log@ == old(s).log@,
            exists|h: int|
                old(s).produced@ <= h < ring.handed(&*old(s)) && self.idx == wrap32(h)
                    && final(s).ring@ == old(s).ring@.update(h % (old(s).size() as int), desc),
    {
        let ghost h = choose|h: int| s.produced@ <= h < ring.handed(&*s) && self.idx == wrap32(h);
        proof {
            lemma_ring_size_facts(s.size());
            lemma_wrap_sub(h, s.produced@ as int);
        }
        xsk_ring_prod__write(&ring.tx, s, self.idx, desc);
    }
}

} // verus!
