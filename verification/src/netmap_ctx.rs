//! The netmap port, its rings and slots, with the ring and buffer memory held
//! as plain values.
//!
//! A netmap ring is an array of `num_slots` slots with three indexes: `head`
//! (first slot owned by user space), `cur` and `tail` (first slot owned by the
//! kernel). User space takes the slots from `head` up to `tail`, wrapping
//! around at `num_slots`, and gives each back by advancing `head` and `cur`.

use vstd::prelude::*;

verus! {

/// Flag telling the kernel that a slot's buffer index changed.
pub const NS_BUF_CHANGED: u16 = 0x0001;

/// The fields of a netmap slot.
#[derive(Clone, Copy, Debug, PartialEq, Eq)]
pub struct SlotData {
    pub buf_idx: u32,
    pub len: u16,
    pub flags: u16,
    pub ptr: u64,
}

/// A slot of a ring (`struct netmap_slot`).
#[derive(Clone, Copy, Debug, PartialEq, Eq)]
pub struct RawSlot {
    pub inner: SlotData,
}

impl RawSlot {
    pub fn buf_idx(&self) -> (r: u32)
        ensures
            r == self.inner.buf_idx,
    {
        self.inner.buf_idx
    }

    pub fn len(&self) -> (r: u16)
        ensures
            r == self.inner.len,
    {
        self.inner.len
    }

    pub fn flags(&self) -> (r: u16)
        ensures
            r == self.inner.flags,
    {
        self.inner.flags
    }

    pub fn ptr(&self) -> (r: u64)
        ensures
            r == self.inner.ptr,
    {
        self.inner.ptr
    }

    /// Gives the slot another buffer and marks the buffer as changed.
    pub fn update_buffer(&mut self, buf_idx: u32)
        ensures
            final(self).inner == (SlotData {
                buf_idx,
                flags: old(self).inner.flags | NS_BUF_CHANGED,
                ..old(self).inner
            }),
    {
        let mut slot_data = self.inner;
        slot_data.buf_idx = buf_idx;
        slot_data.flags = slot_data.flags | NS_BUF_CHANGED;
        self.inner = slot_data;
    }

    /// Replaces the slot's fields.
    pub fn update(&mut self, data: SlotData)
        ensures
            final(self).inner == data,
    {
        self.inner = data;
    }
}

/// A ring of the port (`struct netmap_ring`) together with its index.
pub struct RawRing {
    pub index: usize,
    pub buf_ofs: i64,
    pub num_slots: u32,
    pub nr_buf_size: u32,
    pub head: u32,
    pub cur: u32,
    pub tail: u32,
    pub ts_sec: i64,
    pub ts_usec: i64,
    pub slot: Vec<RawSlot>,
}

/// The slot after `i` in a ring of `n` slots.
pub open spec fn ring_next(i: u32, n: u32) -> u32 {
    if i + 1 == n {
        0
    } else {
        (i + 1) as u32
    }
}

/// Number of slots from `head` up to `tail` in a ring of `n` slots.
pub open spec fn ring_space(head: u32, tail: u32, n: u32) -> nat {
    if head <= tail {
        (tail - head) as nat
    } else {
        (n - head + tail) as nat
    }
}

impl RawRing {
    pub open spec fn wf(&self) -> bool {
        &&& self.slot@.len() == self.num_slots
        &&& 0 < self.num_slots
        &&& self.head < self.num_slots
        &&& self.cur < self.num_slots
        &&& self.tail < self.num_slots
    }

    /// Slots user space may take now.
    pub open spec fn available(&self) -> nat {
        ring_space(self.head, self.tail, self.num_slots)
    }

    pub fn num_slots(&self) -> (r: u32)
        ensures
            r == self.num_slots,
    {
        self.num_slots
    }

    /// The slots of the ring.
    pub fn slot_slice(&self) -> (r: &[RawSlot])
        ensures
            r@ == self.slot@,
    {
        self.slot.as_slice()
    }

    /// Takes the slot at `head` (the next step of the ring's iterator):
    /// `None` when `head` has reached `tail`; otherwise `head` and `cur` move
    /// one slot on, wrapping around, and the taken slot's index is returned.
    pub fn next_slot(&mut self) -> (r: Option<u32>)
        requires
            old(self).wf(),
        ensures
            final(self).wf(),
            final(self).tail == old(self).tail,
            final(self).slot@ == old(self).slot@,
            final(self).num_slots == old(self).num_slots,
            final(self).index == old(self).index,
            final(self).buf_ofs == old(self).buf_ofs,
            final(self).nr_buf_size == old(self).nr_buf_size,
            old(self).head == old(self).tail ==> r is None && *final(self) == *old(self),
            old(self).head != old(self).tail ==> {
                &&& r == Some(old(self).head)
                &&& final(self).head == ring_next(old(self).head, old(self).num_slots)
                &&& final(self).cur == final(self).head
                &&& final(self).available() + 1 == old(self).available()
            },
    {
        if self.head == self.tail {
            return None;
        }
        let idx = self.head;
        let next_idx = if idx + 1 == self.num_slots {
            0
        } else {
            idx + 1
        };
        self.head = next_idx;
        self.cur = next_idx;
        Some(idx)
    }
}

/// A slot taken from a ring: the ring's slot, the index it was taken at and
/// the index `head` moved to.
#[derive(Clone, Copy, Debug, PartialEq, Eq)]
pub struct Slot {
    pub raw: RawSlot,
    pub idx: u32,
    pub next_idx: u32,
}

impl Slot {
    pub fn buf_idx(&self) -> (r: u32)
        ensures
            r == self.raw.inner.buf_idx,
    {
        self.raw.buf_idx()
    }

    pub fn len(&self) -> (r: u16)
        ensures
            r == self.raw.inner.len,
    {
        self.raw.len()
    }

    pub fn flags(&self) -> (r: u16)
        ensures
            r == self.raw.inner.flags,
    {
        self.raw.flags()
    }

    pub fn ptr(&self) -> (r: u64)
        ensures
            r == self.raw.inner.ptr,
    {
        self.raw.ptr()
    }
}


/// The buffer indexes of the chain that starts at `scan`, where the first word
/// of buffer `i` is `words[i]` and index 0 ends the chain; `None` when the
/// chain leaves `words` or is longer than `fuel`.
pub open spec fn extra_chain(words: Seq<u32>, scan: u32, fuel: nat) -> Option<Seq<u32>>
    decreases fuel,
{
    if scan == 0 {
        Some(Seq::empty())
    } else if fuel == 0 || scan >= words.len() {
        None
    } else {
        match extra_chain(words, words[scan as int], (fuel - 1) as nat) {
            Some(rest) => Some(seq![scan] + rest),
            None => None,
        }
    }
}

/// An open netmap port: its ring ranges, its interface (ring counts and ring
/// offsets), its rings, and the first word of each buffer.
pub struct Port {
    pub first_tx_ring: u16,
    pub last_tx_ring: u16,
    pub first_rx_ring: u16,
    pub last_rx_ring: u16,
    pub nr_extra_bufs: u32,
    pub ni_tx_rings: u32,
    pub ni_rx_rings: u32,
    pub ni_host_tx_rings: u32,
    pub ring_ofs: Vec<i64>,
    pub ni_bufs_head: u32,
    pub buf_ofs: i64,
    pub nr_buf_size: u32,
    pub tx_rings: Vec<RawRing>,
    pub rx_rings: Vec<RawRing>,
    pub buffer_words: Vec<u32>,
}

impl Port {
    pub open spec fn wf(&self) -> bool {
        &&& self.ring_offsets_fit()
        &&& self.tx_rings@.len() == self.ni_tx_rings
        &&& self.rx_rings@.len() == self.ni_rx_rings
        &&& forall|i: int| 0 <= i < self.tx_rings@.len() ==> (#[trigger] self.tx_rings@[i]).wf()
        &&& forall|i: int| 0 <= i < self.rx_rings@.len() ==> (#[trigger] self.rx_rings@[i]).wf()
    }

    /// The interface lists an offset for every TX, host TX and RX ring.
    pub open spec fn ring_offsets_fit(&self) -> bool {
        self.ni_tx_rings + self.ni_host_tx_rings + self.ni_rx_rings <= self.ring_ofs@.len()
    }

    /// The RX rings the port was opened on, first and last included.
    pub fn rx_rings_range(&self) -> (r: (usize, usize))
        ensures
            r == (self.first_rx_ring as usize, self.last_rx_ring as usize),
    {
        (self.first_rx_ring as usize, self.last_rx_ring as usize)
    }

    /// The TX rings the port was opened on, first and last included.
    pub fn tx_rings_range(&self) -> (r: (usize, usize))
        ensures
            r == (self.first_tx_ring as usize, self.last_tx_ring as usize),
    {
        (self.first_tx_ring as usize, self.last_tx_ring as usize)
    }

    pub fn first_tx_ring(&self) -> (r: u16)
        ensures
            r == self.first_tx_ring,
    {
        self.first_tx_ring
    }

    pub fn last_tx_ring(&self) -> (r: u16)
        ensures
            r == self.last_tx_ring,
    {
        self.last_tx_ring
    }

    pub fn first_rx_ring(&self) -> (r: u16)
        ensures
            r == self.first_rx_ring,
    {
        self.first_rx_ring
    }

    pub fn last_rx_ring(&self) -> (r: u16)
        ensures
            r == self.last_rx_ring,
    {
        self.last_rx_ring
    }

    /// Number of extra buffers the port was registered with.
    pub fn extra_bufs(&self) -> (r: usize)
        ensures
            r == self.nr_extra_bufs,
    {
        self.nr_extra_bufs as usize
    }

    pub fn ni_rx_rings(&self) -> (r: u32)
        ensures
            r == self.ni_rx_rings,
    {
        self.ni_rx_rings
    }

    pub fn ni_tx_rings(&self) -> (r: u32)
        ensures
            r == self.ni_tx_rings,
    {
        self.ni_tx_rings
    }

    pub fn ni_host_tx_rings(&self) -> (r: u32)
        ensures
            r == self.ni_host_tx_rings,
    {
        self.ni_host_tx_rings
    }

    /// Offsets of the TX rings: the first `ni_tx_rings` ring offsets.
    pub fn tx_rings_offsets(&self) -> (r: Vec<i64>)
        requires
            self.ring_offsets_fit(),
        ensures
            r@ == self.ring_ofs@.subrange(0, self.ni_tx_rings as int),
    {
        let n = self.ni_tx_rings as usize;
        let mut r: Vec<i64> = Vec::new();
        let mut i: usize = 0;
        while i < n
            invariant
                n == self.ni_tx_rings,
                self.ring_offsets_fit(),
                i <= n,
                r@ == self.ring_ofs@.subrange(0, i as int),
            decreases n - i,
        {
            r.push(self.ring_ofs[i]);
            i = i + 1;
            proof {
                assert(r@ =~= self.ring_ofs@.subrange(0, i as int));
            }
        }
        r
    }

    /// Offsets of the RX rings: the `ni_rx_rings` ring offsets after those of
    /// the TX and host TX rings.
    pub fn rx_rings_offsets(&self) -> (r: Vec<i64>)
        requires
            self.ring_offsets_fit(),
        ensures
            r@ == self.ring_ofs@.subrange(
                self.ni_tx_rings + self.ni_host_tx_rings,
                self.ni_tx_rings + self.ni_host_tx_rings + self.ni_rx_rings,
            ),
    {
        let total = self.ring_ofs.len();
        let start = self.ni_tx_rings as usize + self.ni_host_tx_rings as usize;
        let n = self.ni_rx_rings as usize;
        let mut r: Vec<i64> = Vec::new();
        let mut i: usize = 0;
        while i < n
            invariant
                n == self.ni_rx_rings,
                start == self.ni_tx_rings + self.ni_host_tx_rings,
                total == self.ring_ofs@.len(),
                self.ring_offsets_fit(),
                i <= n,
                r@ == self.ring_ofs@.subrange(start as int, start + i),
            decreases n - i,
        {
            r.push(self.ring_ofs[start + i]);
            i = i + 1;
            proof {
                assert(r@ =~= self.ring_ofs@.subrange(start as int, start + i));
            }
        }
        r
    }

    /// The TX ring of that index, if the interface has one.
    pub fn tx_ring_at(&self, index: usize) -> (r: Option<usize>)
        requires
            self.wf(),
        ensures
            r == (if index < self.ni_tx_rings { Some(index) } else { None::<usize> }),
    {
        if index >= self.ni_tx_rings as usize {
            None
        } else {
            Some(index)
        }
    }

    /// The RX ring of that index, if the interface has one.
    pub fn rx_ring_at(&self, index: usize) -> (r: Option<usize>)
        requires
            self.wf(),
        ensures
            r == (if index < self.ni_rx_rings { Some(index) } else { None::<usize> }),
    {
        if index >= self.ni_rx_rings as usize {
            None
        } else {
            Some(index)
        }
    }

    /// Where buffer `index` starts, as an offset from the ring it is reached
    /// through, and its size: buffers follow each other from `buf_ofs` on.
    pub fn buffer(&self, index: usize) -> (r: (i64, usize))
        requires
            i64::MIN <= self.buf_ofs + index * self.nr_buf_size <= i64::MAX,
        ensures
            r.0 == self.buf_ofs + index * self.nr_buf_size,
            r.1 == self.nr_buf_size,
    {
        let i = index as i128;
        let size = self.nr_buf_size as i128;
        assert(0 <= i * size <= 0xffff_ffff_ffff_ffff * 0xffff_ffff) by (nonlinear_arith)
            requires
                0 <= i <= 0xffff_ffff_ffff_ffff,
                0 <= size <= 0xffff_ffff,
        ;
        let off = self.buf_ofs as i128 + i * size;
        (off as i64, self.nr_buf_size as usize)
    }

    /// Collects the extra buffers the kernel chained from `ni_bufs_head`
    /// (the first word of each buffer names the next one, 0 ends the chain)
    /// and empties the chain.
    pub fn extra_buffers_indexes(&mut self) -> (res: Vec<u32>)
        requires
            extra_chain(old(self).buffer_words@, old(self).ni_bufs_head, old(self).buffer_words@.len()) is Some,
        ensures
            res@ == extra_chain(old(self).buffer_words@, old(self).ni_bufs_head, old(self).buffer_words@.len())->0,
            final(self).ni_bufs_head == 0,
            final(self).buffer_words@ == old(self).buffer_words@,
            final(self).rx_rings@ == old(self).rx_rings@,
            final(self).tx_rings@ == old(self).tx_rings@,
    {
        let ghost words = self.buffer_words@;
        let ghost full = extra_chain(words, self.ni_bufs_head, words.len())->0;
        let mut scan = self.ni_bufs_head;
        let mut res: Vec<u32> = Vec::new();
        let ghost mut fuel: nat = words.len();
        while scan != 0
            invariant
                words == self.buffer_words@,
                extra_chain(words, scan, fuel) is Some,
                res@ + extra_chain(words, scan, fuel)->0 == full,
            decreases fuel,
        {
            res.push(scan);
            let ghost rest = extra_chain(words, scan, fuel)->0;
            scan = self.buffer_words[scan as usize];
            proof {
                fuel = (fuel - 1) as nat;
                assert(res@ + extra_chain(words, scan, fuel)->0 =~= full);
            }
        }
        proof {
            assert(res@ =~= full);
        }
        self.ni_bufs_head = 0;
        res
    }
}


/// Rings `a` up to `b` (excluded) have no slot for user space.
pub open spec fn rings_drained(rings: Seq<RawRing>, a: int, b: int) -> bool {
    forall|j: int| a <= j < b ==> (#[trigger] rings[j]).available() == 0
}

/// Where a scan for a slot that starts at ring `start` and stops after ring
/// `last` ends when it finds none among `n` rings: `start` itself when there
/// is no such ring, else the ring after the last one looked at.
pub open spec fn scan_end(start: int, last: int, n: int) -> int {
    if start >= n {
        start
    } else if last < n {
        if start > last { start + 1 } else { last + 1 }
    } else {
        n
    }
}

/// No ring that the two scans of a socket look at has a slot: the scan from
/// `start` up to `last`, and the one from `first` up to `last` that follows
/// it.
pub open spec fn scans_empty(rings: Seq<RawRing>, start: int, first: int, last: int) -> bool {
    &&& rings_drained(rings, start, scan_end(start, last, rings.len() as int))
    &&& rings_drained(rings, first, scan_end(first, last, rings.len() as int))
}

/// Ring `k` is where those two scans find a slot: the first ring with one in
/// the scan from `start`, or, when that scan finds none, in the scan from
/// `first`.
pub open spec fn scan_pick(rings: Seq<RawRing>, start: int, first: int, last: int, k: int) -> bool {
    let n = rings.len() as int;
    ||| start <= k < scan_end(start, last, n) && rings_drained(rings, start, k)
    ||| rings_drained(rings, start, scan_end(start, last, n)) && first <= k < scan_end(first, last, n)
        && rings_drained(rings, first, k)
}

/// All rings are well formed.
pub open spec fn rings_wf(rings: Seq<RawRing>) -> bool {
    forall|j: int| 0 <= j < rings.len() ==> (#[trigger] rings[j]).wf()
}

/// What a successful scan found: the ring index, the slot and the ring's
/// timestamp.
pub struct Found {
    pub ring: usize,
    pub slot: Slot,
    pub ts_sec: i64,
    pub ts_usec: i64,
}

/// Takes the next slot from the rings, starting at ring `*ring_idx` and
/// moving on to the next ring while the current one is empty, up to ring
/// `last` and within the rings there are. `*ring_idx` stays on the ring the
/// slot came from.
fn take_next(rings: &mut Vec<RawRing>, ring_idx: &mut usize, last: usize) -> (r: Option<Found>)
    requires
        rings_wf(old(rings)@),
    ensures
        rings_wf(final(rings)@),
        final(rings)@.len() == old(rings)@.len(),
        *old(ring_idx) <= *final(ring_idx),
        rings_drained(old(rings)@, *old(ring_idx) as int, *final(ring_idx) as int),
        forall|j: int|
            0 <= j < old(rings)@.len() && j != *final(ring_idx) ==> final(rings)@[j] == old(rings)@[j],
        r is None <==> rings_drained(
            old(rings)@,
            *old(ring_idx) as int,
            scan_end(*old(ring_idx) as int, last as int, old(rings)@.len() as int),
        ),
        r is Some ==> *final(ring_idx) < scan_end(*old(ring_idx) as int, last as int, old(rings)@.len() as int),
        match r {
            Some(f) => {
                let k = *final(ring_idx) as int;
                let ring = old(rings)@[k];
                &&& f.ring == k
                &&& k < old(rings)@.len()
                &&& (k == *old(ring_idx) || k <= last)
                &&& ring.available() > 0
                &&& f.slot.idx == ring.head
                &&& f.slot.raw == ring.slot@[ring.head as int]
                &&& f.slot.next_idx == ring_next(ring.head, ring.num_slots)
                &&& f.ts_sec == ring.ts_sec && f.ts_usec == ring.ts_usec
                &&& final(rings)@[k].head == ring_next(ring.head, ring.num_slots)
                &&& final(rings)@[k].cur == final(rings)@[k].head
                &&& final(rings)@[k].tail == ring.tail
                &&& final(rings)@[k].slot@ == ring.slot@
                &&& final(rings)@[k].available() + 1 == ring.available()
            },
            None => {
                &&& final(rings)@ == old(rings)@
                &&& *final(ring_idx) == scan_end(*old(ring_idx) as int, last as int, old(rings)@.len() as int)
            },
        },
{
    let ghost rings0 = rings@;
    let ghost idx0 = *ring_idx;
    loop
        invariant
            rings@ == rings0,
            rings0 == old(rings)@,
            idx0 == *old(ring_idx),
            rings_wf(rings0),
            idx0 <= *ring_idx,
            *ring_idx <= rings0.len() || *ring_idx == idx0,
            rings_drained(rings0, idx0 as int, *ring_idx as int),
            *ring_idx == idx0 || *ring_idx <= last,
        decreases (if *ring_idx <= rings0.len() { rings0.len() - *ring_idx } else { 0 }),
    {
        if *ring_idx >= rings.len() {
            return None;
        }
        let k = *ring_idx;
        let mut ring = rings.remove(k);
        assert(ring == rings0[k as int]);
        let ts_sec = ring.ts_sec;
        let ts_usec = ring.ts_usec;
        let got = ring.next_slot();
        match got {
            Some(i) => {
                let raw = ring.slot[i as usize];
                let next_idx = ring.head;
                rings.insert(k, ring);
                proof {
                    assert forall|j: int| 0 <= j < rings@.len() implies (#[trigger] rings@[j]).wf() by {
                        if j != k {
                            assert(rings@[j] == rings0[j]);
                        }
                    }
                }
                return Some(Found { ring: k, slot: Slot { raw, idx: i, next_idx }, ts_sec, ts_usec });
            },
            None => {
                rings.insert(k, ring);
                proof {
                    assert(rings@ =~= rings0);
                }
                *ring_idx = k + 1;
                if *ring_idx > last {
                    return None;
                }
            },
        }
    }
}

/// A received slot: the slot, its ring and the ring's timestamp.
pub struct RxBuf {
    pub slot: Slot,
    pub ring_idx: u16,
    pub ts_sec: i64,
    pub ts_usec: i64,
}

/// The receiving side of a port: it scans the RX rings from `ring_idx` to
/// `last_rx_ring`.
pub struct Receiver {
    pub synced: bool,
    pub last_rx_ring: usize,
    pub ring_idx: usize,
}

impl Receiver {
    /// A receiver that starts at the port's first RX ring and has not synced.
    pub fn new(port: &Port) -> (r: Self)
        ensures
            r.ring_idx == port.first_rx_ring,
            r.last_rx_ring == port.last_rx_ring,
            !r.synced,
    {
        Receiver {
            synced: false,
            last_rx_ring: port.last_rx_ring() as usize,
            ring_idx: port.first_rx_ring() as usize,
        }
    }

    /// Starts again from the first RX ring (no slot may be in use).
    pub fn reset(&mut self, port: &Port)
        ensures
            final(self).ring_idx == port.first_rx_ring,
            final(self).last_rx_ring == old(self).last_rx_ring,
            final(self).synced == old(self).synced,
    {
        self.ring_idx = port.first_rx_ring() as usize;
    }

    /// The next received slot. The first call marks the receiver synced: that
    /// is where the port is asked (NIOCRXSYNC) for what the kernel received.
    pub fn next(&mut self, port: &mut Port) -> (r: Option<RxBuf>)
        requires
            old(port).wf(),
        ensures
            final(port).wf(),
            final(self).synced,
            final(self).last_rx_ring == old(self).last_rx_ring,
            final(port).tx_rings@ == old(port).tx_rings@,
            final(port).rx_rings@.len() == old(port).rx_rings@.len(),
            final(port).ni_rx_rings == old(port).ni_rx_rings,
            final(port).first_rx_ring == old(port).first_rx_ring,
            old(self).ring_idx <= final(self).ring_idx,
            rings_drained(old(port).rx_rings@, old(self).ring_idx as int, final(self).ring_idx as int),
            r is None <==> rings_drained(
                old(port).rx_rings@,
                old(self).ring_idx as int,
                scan_end(old(self).ring_idx as int, old(self).last_rx_ring as int, old(port).rx_rings@.len() as int),
            ),
            r is Some ==> final(self).ring_idx < scan_end(
                old(self).ring_idx as int,
                old(self).last_rx_ring as int,
                old(port).rx_rings@.len() as int,
            ),
            forall|j: int|
                0 <= j < old(port).rx_rings@.len() && j != final(self).ring_idx ==> final(port).rx_rings@[j]
                    == old(port).rx_rings@[j],
            match r {
                Some(b) => {
                    let ring = old(port).rx_rings@[final(self).ring_idx as int];
                    &&& final(self).ring_idx < old(port).rx_rings@.len()
                    &&& b.ring_idx == final(self).ring_idx as u16
                    &&& ring.available() > 0
                    &&& b.slot.idx == ring.head
                    &&& b.slot.raw == ring.slot@[ring.head as int]
                    &&& b.ts_sec == ring.ts_sec && b.ts_usec == ring.ts_usec
                    &&& final(port).rx_rings@[final(self).ring_idx as int].available() + 1 == ring.available()
                    &&& final(port).rx_rings@[final(self).ring_idx as int].num_slots == ring.num_slots
                    &&& final(port).rx_rings@[final(self).ring_idx as int].slot@ == ring.slot@
                    &&& final(port).rx_rings@[final(self).ring_idx as int].head == ring_next(ring.head, ring.num_slots)
                    &&& final(port).rx_rings@[final(self).ring_idx as int].tail == ring.tail
                },
                None => {
                    &&& final(port).rx_rings@ == old(port).rx_rings@
                    &&& final(self).ring_idx == scan_end(
                        old(self).ring_idx as int,
                        old(self).last_rx_ring as int,
                        old(port).rx_rings@.len() as int,
                    )
                },
            },
    {
        if !self.synced {
            self.synced = true;
        }
        let last = self.last_rx_ring;
        let mut rings: Vec<RawRing> = Vec::new();
        std::mem::swap(&mut rings, &mut port.rx_rings);
        let mut idx = self.ring_idx;
        let found = take_next(&mut rings, &mut idx, last);
        port.rx_rings = rings;
        self.ring_idx = idx;
        match found {
            Some(f) => Some(RxBuf { slot: f.slot, ring_idx: f.ring as u16, ts_sec: f.ts_sec, ts_usec: f.ts_usec }),
            None => None,
        }
    }
}

/// A slot to transmit: the slot and its ring.
pub struct TxBuf {
    pub slot: Slot,
    pub ring_idx: u16,
}

/// The transmitting side of a port: it scans the TX rings from `ring_idx` to
/// `last_tx_ring`.
pub struct Transmitter {
    pub synced: bool,
    pub last_tx_ring: usize,
    pub ring_idx: usize,
}

impl Transmitter {
    /// A transmitter that starts at the port's first TX ring and has not synced.
    pub fn new(port: &Port) -> (t: Self)
        ensures
            t.ring_idx == port.first_tx_ring,
            t.last_tx_ring == port.last_tx_ring,
            !t.synced,
    {
        Transmitter {
            synced: false,
            last_tx_ring: port.last_tx_ring() as usize,
            ring_idx: port.first_tx_ring() as usize,
        }
    }

    /// Starts again from the first TX ring (no slot may be in use).
    pub fn reset(&mut self, port: &Port)
        ensures
            final(self).ring_idx == port.first_tx_ring,
            final(self).last_tx_ring == old(self).last_tx_ring,
            final(self).synced == old(self).synced,
    {
        self.ring_idx = port.first_tx_ring() as usize;
    }

    /// The next free TX slot. The first call marks the transmitter synced:
    /// that is where the port is asked (NIOCTXSYNC) to send what was filled.
    pub fn next(&mut self, port: &mut Port) -> (r: Option<TxBuf>)
        requires
            old(port).wf(),
        ensures
            final(port).wf(),
            final(self).synced,
            final(self).last_tx_ring == old(self).last_tx_ring,
            final(port).rx_rings@ == old(port).rx_rings@,
            final(port).tx_rings@.len() == old(port).tx_rings@.len(),
            final(port).ni_tx_rings == old(port).ni_tx_rings,
            final(port).first_tx_ring == old(port).first_tx_ring,
            final(port).nr_buf_size == old(port).nr_buf_size,
            old(self).ring_idx <= final(self).ring_idx,
            rings_drained(old(port).tx_rings@, old(self).ring_idx as int, final(self).ring_idx as int),
            r is None <==> rings_drained(
                old(port).tx_rings@,
                old(self).ring_idx as int,
                scan_end(old(self).ring_idx as int, old(self).last_tx_ring as int, old(port).tx_rings@.len() as int),
            ),
            r is Some ==> final(self).ring_idx < scan_end(
                old(self).ring_idx as int,
                old(self).last_tx_ring as int,
                old(port).tx_rings@.len() as int,
            ),
            forall|j: int|
                0 <= j < old(port).tx_rings@.len() && j != final(self).ring_idx ==> final(port).tx_rings@[j]
                    == old(port).tx_rings@[j],
            match r {
                Some(b) => {
                    let ring = old(port).tx_rings@[final(self).ring_idx as int];
                    &&& final(self).ring_idx < old(port).tx_rings@.len()
                    &&& b.ring_idx == final(self).ring_idx as u16
                    &&& ring.available() > 0
                    &&& b.slot.idx == ring.head
                    &&& b.slot.raw == ring.slot@[ring.head as int]
                    &&& final(port).tx_rings@[final(self).ring_idx as int].available() + 1 == ring.available()
                    &&& final(port).tx_rings@[final(self).ring_idx as int].slot@ == ring.slot@
                    &&& final(port).tx_rings@[final(self).ring_idx as int].head == ring_next(ring.head, ring.num_slots)
                    &&& final(port).tx_rings@[final(self).ring_idx as int].num_slots == ring.num_slots
                },
                None => {
                    &&& final(port).tx_rings@ == old(port).tx_rings@
                    &&& final(self).ring_idx == scan_end(
                        old(self).ring_idx as int,
                        old(self).last_tx_ring as int,
                        old(port).tx_rings@.len() as int,
                    )
                },
            },
    {
        if !self.synced {
            self.synced = true;
        }
        let last = self.last_tx_ring;
        let mut rings: Vec<RawRing> = Vec::new();
        std::mem::swap(&mut rings, &mut port.tx_rings);
        let mut idx = self.ring_idx;
        let found = take_next(&mut rings, &mut idx, last);
        port.tx_rings = rings;
        self.ring_idx = idx;
        match found {
            Some(f) => Some(TxBuf { slot: f.slot, ring_idx: f.ring as u16 }),
            None => None,
        }
    }
}

/// The port specifications opened so far, each listed once (by its bytes).
pub struct AllocatedPorts {
    pub names: Vec<Vec<u8>>,
}

impl AllocatedPorts {
    /// The set of port specifications in use.
    pub open spec fn view(&self) -> Set<Seq<u8>> {
        Set::new(|n: Seq<u8>| exists|i: int| 0 <= i < self.names@.len() && self.names@[i]@ == n)
    }

    /// No port is opened yet.
    pub fn new() -> (a: Self)
        ensures
            a.view() == Set::<Seq<u8>>::empty(),
    {
        let a = AllocatedPorts { names: Vec::new() };
        proof {
            assert(a.view() =~= Set::<Seq<u8>>::empty());
        }
        a
    }
}

/// Whether two byte strings are equal.
fn same_bytes(a: &[u8], b: &[u8]) -> (r: bool)
    ensures
        r == (a@ == b@),
{
    if a.len() != b.len() {
        return false;
    }
    let mut i: usize = 0;
    while i < a.len()
        invariant
            a@.len() == b@.len(),
            i <= a@.len(),
            forall|j: int| 0 <= j < i ==> a@[j] == b@[j],
        decreases a@.len() - i,
    {
        if a[i] != b[i] {
            return false;
        }
        i = i + 1;
    }
    proof {
        assert(a@ =~= b@);
    }
    true
}

/// Claims port specification `s` for a new port (`allocate_port`): refused,
/// with nothing changed, when a port of that specification is open already.
pub fn allocate_port(ports: &mut AllocatedPorts, s: &[u8]) -> (r: bool)
    ensures
        r == !old(ports).view().contains(s@),
        final(ports).view() == old(ports).view().insert(s@),
        !r ==> final(ports).names@ == old(ports).names@,
{
    let mut i: usize = 0;
    while i < ports.names.len()
        invariant
            ports.names@ == old(ports).names@,
            i <= ports.names@.len(),
            forall|j: int| 0 <= j < i ==> ports.names@[j]@ != s@,
        decreases ports.names@.len() - i,
    {
        if same_bytes(ports.names[i].as_slice(), s) {
            proof {
                assert(ports.view().contains(s@));
                assert(ports.view().insert(s@) =~= ports.view());
            }
            return false;
        }
        i = i + 1;
    }
    proof {
        assert(!old(ports).view().contains(s@));
    }
    let ghost before = ports.names@;
    let mut name: Vec<u8> = Vec::new();
    let mut k: usize = 0;
    while k < s.len()
        invariant
            k <= s@.len(),
            name@ == s@.take(k as int),
            ports.names@ == before,
        decreases s@.len() - k,
    {
        name.push(s[k]);
        k = k + 1;
        proof {
            assert(name@ =~= s@.take(k as int));
        }
    }
    proof {
        assert(name@ =~= s@);
    }
    ports.names.push(name);
    proof {
        assert(ports.view() =~= old(ports).view().insert(s@)) by {
            assert forall|n: Seq<u8>| ports.view().contains(n) <==> old(ports).view().contains(n) || n == s@ by {
                if ports.view().contains(n) {
                    let w = choose|w: int| 0 <= w < ports.names@.len() && ports.names@[w]@ == n;
                    if w < before.len() {
                        assert(before[w]@ == n);
                    }
                }
                if old(ports).view().contains(n) {
                    let w = choose|w: int| 0 <= w < before.len() && before[w]@ == n;
                    assert(ports.names@[w]@ == n);
                }
                if n == s@ {
                    assert(ports.names@[before.len() as int]@ == n);
                }
            }
        }
    }
    true
}

} // verus!
