//! The pcap backend: flags, per-packet metadata, and what the socket does
//! with each record it reads from a capture file.

use vstd::prelude::*;
use crossbeam_queue::ArrayQueue;
use crate::api::buffer::BufferDesc;
use crate::api::context::Context;
use crate::api::metadata::{Metadata, MetadataType};
use crate::api::socket::Flags;
use crate::api::token::Token;
use crate::errors::{Error, PcapFailure};
use pcap_parser::Block::{EnhancedPacket, SectionHeader, SimplePacket};
use pcap_parser::nom::Err::Incomplete;
use pcap_parser::{parse_block_be, parse_block_le};

verus! {

/// Options of a pcap socket.
#[derive(Clone, Debug)]
pub struct PcapFlags {
    /// Snaplen passed to libpcap.
    pub snaplen: i32,
    /// Promiscuous mode.
    pub promiscuous: bool,
    /// Read timeout in milliseconds (for live captures).
    pub timeout_ms: i32,
    /// libpcap immediate mode.
    pub immediate: bool,
    /// Optional BPF filter (tcpdump syntax).
    pub filter: Option<String>,
    /// Size of each buffer in the pool (bytes).
    pub buffer_size: usize,
    /// Number of buffers to preallocate.
    pub buffer_count: usize,
}

impl Default for PcapFlags {
    fn default() -> (f: Self)
        ensures
            f.snaplen == 65535,
            f.promiscuous,
            f.timeout_ms == 1,
            f.immediate,
            f.filter is None,
            f.buffer_size == 2048,
            f.buffer_count == 32,
    {
        PcapFlags {
            snaplen: 65535,
            promiscuous: true,
            timeout_ms: 1,
            immediate: true,
            filter: None,
            buffer_size: 2048,
            buffer_count: 32,
        }
    }
}

impl Flags for PcapFlags {}

/// A timestamp: seconds and microseconds.
#[derive(Clone, Copy, Debug, PartialEq, Eq)]
pub struct Timeval {
    pub tv_sec: i64,
    pub tv_usec: i64,
}

/// Per-packet metadata: timestamp, original length and captured length.
#[derive(Clone, Copy, Debug, PartialEq, Eq)]
pub struct Meta {
    pub timestamp: Timeval,
    pub len: u32,
    pub caplen: u32,
}

impl Metadata for Meta {
    fn into_enum(self) -> (m: MetadataType)
        ensures
            m == MetadataType::Pcap(self),
    {
        MetadataType::Pcap(self)
    }
}

/// A record of a capture file, as the reader delivers it.
pub enum PcapRecord {
    /// A packet of a legacy pcap file.
    Legacy { ts_sec: u32, ts_usec: u32, origlen: u32, data: Vec<u8> },
    /// An enhanced packet block of a pcapng file.
    Enhanced { ts_high: u32, ts_low: u32, origlen: u32, data: Vec<u8> },
    /// A simple packet block of a pcapng file.
    Simple { origlen: u32, data: Vec<u8> },
    /// Any other block (file headers, interface descriptions, statistics).
    Other,
}

/// Timestamps of enhanced packet blocks below this are microseconds since the
/// epoch, those above nanoseconds.
pub const NANOSECOND_THRESHOLD: u64 = 10_000_000_000_000_000;

/// The timestamp of an enhanced packet block: the 64-bit count made of the
/// two halves, read as microseconds or, when large, as nanoseconds.
pub open spec fn enhanced_timestamp(ts_high: u32, ts_low: u32) -> Timeval {
    let raw = ts_high as int * 0x1_0000_0000 + ts_low as int;
    if raw < NANOSECOND_THRESHOLD {
        Timeval { tv_sec: (raw / 1_000_000) as i64, tv_usec: (raw % 1_000_000) as i64 }
    } else {
        Timeval { tv_sec: (raw / 1_000_000_000) as i64, tv_usec: ((raw % 1_000_000_000) / 1000) as i64 }
    }
}

/// Decodes the timestamp of an enhanced packet block.
pub fn decode_enhanced_timestamp(ts_high: u32, ts_low: u32) -> (t: Timeval)
    ensures
        t == enhanced_timestamp(ts_high, ts_low),
{
    let hi = ts_high as u64;
    let raw: u64 = (hi << 32u64) | (ts_low as u64);
    assert(raw == hi * 0x1_0000_0000 + ts_low) by (bit_vector)
        requires
            hi < 0x1_0000_0000,
            raw == (hi << 32u64) | (ts_low as u64),
    ;
    if raw < NANOSECOND_THRESHOLD {
        Timeval { tv_sec: (raw / 1_000_000) as i64, tv_usec: (raw % 1_000_000) as i64 }
    } else {
        Timeval { tv_sec: (raw / 1_000_000_000) as i64, tv_usec: ((raw % 1_000_000_000) / 1000) as i64 }
    }
}

/// How many bytes of a packet of `caplen` captured bytes fit in a buffer of
/// `buf_len` bytes.
pub fn copy_len(caplen: usize, buf_len: usize) -> (n: usize)
    ensures
        n == if caplen < buf_len { caplen } else { buf_len },
{
    if caplen < buf_len {
        caplen
    } else {
        buf_len
    }
}

/// Copies the first `n` bytes of `data` over the start of `buffer`.
fn copy_prefix(buffer: &mut Vec<u8>, data: &Vec<u8>, n: usize)
    requires
        n <= data@.len(),
        n <= old(buffer)@.len(),
    ensures
        final(buffer)@ == data@.take(n as int) + old(buffer)@.skip(n as int),
{
    let mut i: usize = 0;
    while i < n
        invariant
            i <= n,
            n <= data@.len(),
            n <= old(buffer)@.len(),
            buffer@.len() == old(buffer)@.len(),
            buffer@ == data@.take(i as int) + old(buffer)@.skip(i as int),
        decreases n - i,
    {
        buffer.set(i, data[i]);
        i = i + 1;
        proof {
            assert(buffer@ =~= data@.take(i as int) + old(buffer)@.skip(i as int));
        }
    }
}

/// What the socket does with a record: a packet's captured bytes are copied
/// into `buffer` (as many as fit) and its metadata returned with the copied
/// length; other records yield `None` and are skipped.
pub fn take_record(record: &PcapRecord, buffer: &mut Vec<u8>) -> (r: Option<(u32, Meta)>)
    requires
        old(buffer)@.len() <= u32::MAX,
    ensures
        final(buffer)@.len() == old(buffer)@.len(),
        match record {
            PcapRecord::Legacy { ts_sec, ts_usec, origlen, data } => {
                let n = if data@.len() < old(buffer)@.len() { data@.len() } else { old(buffer)@.len() };
                &&& r == Some((n as u32, Meta {
                    timestamp: Timeval { tv_sec: *ts_sec as i64, tv_usec: (*ts_usec as i32) as i64 },
                    len: *origlen,
                    caplen: data@.len() as u32,
                }))
                &&& final(buffer)@ == data@.take(n as int) + old(buffer)@.skip(n as int)
            },
            PcapRecord::Enhanced { ts_high, ts_low, origlen, data } => {
                let n = if data@.len() < old(buffer)@.len() { data@.len() } else { old(buffer)@.len() };
                &&& r == Some((n as u32, Meta {
                    timestamp: enhanced_timestamp(*ts_high, *ts_low),
                    len: *origlen,
                    caplen: data@.len() as u32,
                }))
                &&& final(buffer)@ == data@.take(n as int) + old(buffer)@.skip(n as int)
            },
            PcapRecord::Simple { origlen, data } => {
                let n = if data@.len() < old(buffer)@.len() { data@.len() } else { old(buffer)@.len() };
                &&& r == Some((n as u32, Meta {
                    timestamp: Timeval { tv_sec: 0, tv_usec: 0 },
                    len: *origlen,
                    caplen: data@.len() as u32,
                }))
                &&& final(buffer)@ == data@.take(n as int) + old(buffer)@.skip(n as int)
            },
            PcapRecord::Other => r is None && final(buffer)@ == old(buffer)@,
        },
{
    match record {
        PcapRecord::Legacy { ts_sec, ts_usec, origlen, data } => {
            let n = copy_len(data.len(), buffer.len());
            copy_prefix(buffer, data, n);
            let meta = Meta {
                timestamp: Timeval { tv_sec: *ts_sec as i64, tv_usec: (*ts_usec as i32) as i64 },
                len: *origlen,
                caplen: data.len() as u32,
            };
            Some((n as u32, meta))
        },
        PcapRecord::Enhanced { ts_high, ts_low, origlen, data } => {
            let n = copy_len(data.len(), buffer.len());
            copy_prefix(buffer, data, n);
            let meta = Meta {
                timestamp: decode_enhanced_timestamp(*ts_high, *ts_low),
                len: *origlen,
                caplen: data.len() as u32,
            };
            Some((n as u32, meta))
        },
        PcapRecord::Simple { origlen, data } => {
            let n = copy_len(data.len(), buffer.len());
            copy_prefix(buffer, data, n);
            let meta = Meta {
                timestamp: Timeval { tv_sec: 0, tv_usec: 0 },
                len: *origlen,
                caplen: data.len() as u32,
            };
            Some((n as u32, meta))
        },
        PcapRecord::Other => None,
    }
}

/// The bytes of "file:".
pub open spec fn file_prefix() -> Seq<u8> {
    seq![102u8, 105u8, 108u8, 101u8, 58u8]
}

/// The bytes of ".pcap".
pub open spec fn pcap_suffix() -> Seq<u8> {
    seq![46u8, 112u8, 99u8, 97u8, 112u8]
}

/// The bytes of ".pcapng".
pub open spec fn pcapng_suffix() -> Seq<u8> {
    seq![46u8, 112u8, 99u8, 97u8, 112u8, 110u8, 103u8]
}

/// `s` starts with `p`.
pub open spec fn has_prefix(s: Seq<u8>, p: Seq<u8>) -> bool {
    p.len() <= s.len() && s.take(p.len() as int) == p
}

/// `s` ends with `p`.
pub open spec fn has_suffix(s: Seq<u8>, p: Seq<u8>) -> bool {
    p.len() <= s.len() && s.skip(s.len() - p.len()) == p
}

/// Whether a port specification (given by its bytes) names a capture file
/// ("file:" prefix, or ".pcap" / ".pcapng" suffix) and where the file's path
/// starts in it.
pub fn classify_portspec(portspec: &[u8]) -> (r: (bool, usize))
    ensures
        r.0 == (has_prefix(portspec@, file_prefix()) || has_suffix(portspec@, pcap_suffix())
            || has_suffix(portspec@, pcapng_suffix())),
        r.1 == if has_prefix(portspec@, file_prefix()) { 5usize } else { 0usize },
{
    let file_p: [u8; 5] = [102, 105, 108, 101, 58];
    let pcap_s: [u8; 5] = [46, 112, 99, 97, 112];
    let pcapng_s: [u8; 7] = [46, 112, 99, 97, 112, 110, 103];
    let file = bytes_start_with(portspec, file_p.as_slice());
    let pcap = bytes_end_with(portspec, pcap_s.as_slice());
    let pcapng = bytes_end_with(portspec, pcapng_s.as_slice());
    proof {
        assert(file_p@ =~= file_prefix());
        assert(pcap_s@ =~= pcap_suffix());
        assert(pcapng_s@ =~= pcapng_suffix());
    }
    (file || pcap || pcapng, if file { 5 } else { 0 })
}

fn bytes_start_with(s: &[u8], p: &[u8]) -> (r: bool)
    ensures
        r == (p@.len() <= s@.len() && s@.take(p@.len() as int) == p@),
{
    if p.len() > s.len() {
        return false;
    }
    let mut i: usize = 0;
    while i < p.len()
        invariant
            p@.len() <= s@.len(),
            i <= p@.len(),
            forall|j: int| 0 <= j < i ==> s@[j] == p@[j],
        decreases p@.len() - i,
    {
        if s[i] != p[i] {
            proof {
                assert(s@.take(p@.len() as int)[i as int] != p@[i as int]);
            }
            return false;
        }
        i = i + 1;
    }
    proof {
        assert(s@.take(p@.len() as int) =~= p@);
    }
    true
}

fn bytes_end_with(s: &[u8], p: &[u8]) -> (r: bool)
    ensures
        r == (p@.len() <= s@.len() && s@.skip(s@.len() - p@.len()) == p@),
{
    if p.len() > s.len() {
        return false;
    }
    let slen = s.len();
    let off = slen - p.len();
    let mut i: usize = 0;
    while i < p.len()
        invariant
            slen == s@.len(),
            p@.len() <= s@.len(),
            off == s@.len() - p@.len(),
            i <= p@.len(),
            forall|j: int| 0 <= j < i ==> s@[off + j] == p@[j],
        decreases p@.len() - i,
    {
        if s[off + i] != p[i] {
            proof {
                assert(s@.skip(off as int)[i as int] != p@[i as int]);
            }
            return false;
        }
        i = i + 1;
    }
    proof {
        assert(s@.skip(off as int) =~= p@);
    }
    true
}

// ---------------------------------------------------------------------------
// The pool of free buffers: a bounded queue of `crossbeam_queue`
// ---------------------------------------------------------------------------

#[verifier::external_type_specification]
#[verifier::external_body]
#[verifier::reject_recursive_types(T)]
pub struct ExArrayQueue<T>(ArrayQueue<T>);

/// The buffer indexes a pool queue holds, oldest first.
pub uninterp spec fn pool_items(q: ArrayQueue<usize>) -> Seq<usize>;

/// The capacity a pool queue was made with.
pub uninterp spec fn pool_capacity(q: ArrayQueue<usize>) -> nat;

/// `ArrayQueue::new`: an empty queue of capacity `cap`. The crate panics on a
/// capacity of zero, and on one whose slots (16 bytes each for `usize`)
/// cannot be allocated or whose lap count overflows; `requires` leaves those
/// out.
#[verifier::external_body]
fn pool_new(cap: usize) -> (q: ArrayQueue<usize>)
    requires
        0 < cap,
        cap as int * 16 <= isize::MAX,
    ensures
        pool_items(q) == Seq::<usize>::empty(),
        pool_capacity(q) == cap,
{
    ArrayQueue::new(cap)
}

/// `ArrayQueue::push`: appends `v` at the tail, or, when the queue already
/// holds `capacity` items, hands `v` back as the error and changes nothing.
#[verifier::external_body]
fn pool_push(q: &mut ArrayQueue<usize>, v: usize) -> (r: Result<(), usize>)
    ensures
        pool_capacity(*final(q)) == pool_capacity(*old(q)),
        pool_items(*old(q)).len() < pool_capacity(*old(q)) ==> r is Ok
            && pool_items(*final(q)) == pool_items(*old(q)).push(v),
        pool_items(*old(q)).len() >= pool_capacity(*old(q)) ==> (r matches Err(e) && e == v)
            && pool_items(*final(q)) == pool_items(*old(q)),
{
    q.push(v)
}

/// `ArrayQueue::pop`: removes and returns the item at the head, or `None`
/// when the queue is empty.
#[verifier::external_body]
fn pool_pop(q: &mut ArrayQueue<usize>) -> (r: Option<usize>)
    ensures
        pool_capacity(*final(q)) == pool_capacity(*old(q)),
        pool_items(*old(q)).len() == 0 ==> r is None && pool_items(*final(q)) == pool_items(*old(q)),
        pool_items(*old(q)).len() > 0 ==> r == Some(pool_items(*old(q))[0])
            && pool_items(*final(q)) == pool_items(*old(q)).drop_first(),
{
    q.pop()
}

// ---------------------------------------------------------------------------
// Context and socket
// ---------------------------------------------------------------------------

/// The free buffers after `d` is given back to a pool of capacity `cap`
/// holding `free`: `d` joins the queue if there is room, else it is dropped.
pub open spec fn released(free: Seq<usize>, cap: nat, d: usize) -> Seq<usize> {
    if free.len() < cap {
        free.push(d)
    } else {
        free
    }
}

/// A buffer taken from a pool that holds no more than its capacity always
/// finds room when it is given back: the pool then holds the same buffers as
/// before, the one taken now last.
pub proof fn law_take_then_release(free: Seq<usize>, cap: nat)
    requires
        0 < free.len() <= cap,
    ensures
        released(free.drop_first(), cap, free[0]) == free.drop_first().push(free[0]),
        released(free.drop_first(), cap, free[0]).to_multiset() == free.to_multiset(),
{
    broadcast use vstd::seq_lib::group_to_multiset_ensures;
    assert(free.remove(0) =~= free.drop_first());
    assert(free.drop_first().push(free[0]).to_multiset() =~= free.to_multiset());
}

/// The buffer pool of a pcap socket: its id, the size of each buffer and the
/// queue of free buffers (by index).
pub struct PcapContext {
    pool_id: u32,
    buf_capacity: usize,
    pool: ArrayQueue<usize>,
}

impl PcapContext {
    /// The free buffers, oldest first.
    pub closed spec fn free(&self) -> Seq<usize> {
        pool_items(self.pool)
    }

    /// How many free buffers the pool can hold.
    pub closed spec fn capacity(&self) -> nat {
        pool_capacity(self.pool)
    }

    /// The size of each buffer.
    pub closed spec fn buf_size(&self) -> nat {
        self.buf_capacity as nat
    }

    /// A pool named `pool_id` of `buf_count` buffers of `buf_size` bytes, all
    /// free: buffers `0..buf_count`, in that order.
    pub fn new(pool_id: u32, buf_size: usize, buf_count: usize) -> (c: Self)
        requires
            0 < buf_count,
            buf_count as int * 16 <= isize::MAX,
        ensures
            c.id() == pool_id,
            c.buf_size() == buf_size,
            c.capacity() == buf_count,
            c.free() == Seq::new(buf_count as nat, |i: int| i as usize),
    {
        let mut pool = pool_new(buf_count);
        let mut i: usize = 0;
        while i < buf_count
            invariant
                i <= buf_count,
                pool_capacity(pool) == buf_count,
                pool_items(pool) == Seq::new(i as nat, |j: int| j as usize),
            decreases buf_count - i,
        {
            let r = pool_push(&mut pool, i);
            i = i + 1;
            proof {
                assert(pool_items(pool) =~= Seq::new(i as nat, |j: int| j as usize));
            }
        }
        PcapContext { pool_id, buf_capacity: buf_size, pool }
    }

    /// The size of each buffer.
    pub fn buffer_size(&self) -> (n: usize)
        ensures
            n == self.buf_size(),
    {
        self.buf_capacity
    }

    /// Gives buffer `desc` back to the pool. When the pool is already full
    /// (buffers were added during a burst) the buffer is dropped instead.
    pub fn release(&mut self, desc: BufferDesc)
        ensures
            final(self).id() == old(self).id(),
            final(self).buf_size() == old(self).buf_size(),
            final(self).capacity() == old(self).capacity(),
            final(self).free() == released(old(self).free(), old(self).capacity(), desc.0),
    {
        let _ = pool_push(&mut self.pool, desc.0);
    }

    /// Takes the oldest free buffer, if any.
    fn take_free(&mut self) -> (r: Option<usize>)
        ensures
            final(self).id() == old(self).id(),
            final(self).buf_size() == old(self).buf_size(),
            final(self).capacity() == old(self).capacity(),
            old(self).free().len() == 0 ==> r is None && final(self).free() == old(self).free(),
            old(self).free().len() > 0 ==> r == Some(old(self).free()[0])
                && final(self).free() == old(self).free().drop_first(),
    {
        pool_pop(&mut self.pool)
    }
}

impl Context for PcapContext {
    closed spec fn id(&self) -> u32 {
        self.pool_id
    }

    fn pool_id(&self) -> (r: u32) {
        self.pool_id
    }
}

/// A pcap socket's buffers: the pool, and the buffers themselves, named by
/// their index. Reading the capture is left to the caller, which hands each
/// record to `fill`.
pub struct Sock {
    pub ctx: PcapContext,
    pub buffers: Vec<Vec<u8>>,
}

/// `n` zero bytes.
fn zeroed(n: usize) -> (v: Vec<u8>)
    ensures
        v@ == Seq::new(n as nat, |i: int| 0u8),
{
    let mut v: Vec<u8> = Vec::new();
    let mut i: usize = 0;
    while i < n
        invariant
            i <= n,
            v@ == Seq::new(i as nat, |j: int| 0u8),
        decreases n - i,
    {
        v.push(0u8);
        i = i + 1;
        proof {
            assert(v@ =~= Seq::new(i as nat, |j: int| 0u8));
        }
    }
    v
}

impl Sock {
    /// Every buffer has the pool's buffer size, and every free buffer exists.
    pub open spec fn inv(&self) -> bool {
        &&& self.ctx.free().len() <= self.ctx.capacity()
        &&& forall|k: int| 0 <= k < self.buffers@.len() ==> #[trigger] self.buffers@[k]@.len()
            == self.ctx.buf_size()
        &&& forall|k: int| 0 <= k < self.ctx.free().len() ==> #[trigger] self.ctx.free()[k]
            < self.buffers@.len()
    }

    /// A socket over a new pool named `pool_id`, with the buffer size and
    /// count of `flags`; every buffer starts zeroed and free.
    pub fn new(pool_id: u32, flags: &PcapFlags) -> (s: Self)
        requires
            0 < flags.buffer_count,
            flags.buffer_count as int * 16 <= isize::MAX,
        ensures
            s.inv(),
            s.ctx.id() == pool_id,
            s.ctx.buf_size() == flags.buffer_size,
            s.ctx.capacity() == flags.buffer_count,
            s.ctx.free() == Seq::new(flags.buffer_count as nat, |i: int| i as usize),
            s.buffers@.len() == flags.buffer_count,
            forall|k: int| 0 <= k < s.buffers@.len() ==> #[trigger] s.buffers@[k]@ == Seq::new(
                flags.buffer_size as nat,
                |i: int| 0u8,
            ),
    {
        let ctx = PcapContext::new(pool_id, flags.buffer_size, flags.buffer_count);
        let mut buffers: Vec<Vec<u8>> = Vec::new();
        let mut i: usize = 0;
        while i < flags.buffer_count
            invariant
                i <= flags.buffer_count,
                buffers@.len() == i,
                forall|k: int| 0 <= k < i ==> #[trigger] buffers@[k]@ == Seq::new(
                    flags.buffer_size as nat,
                    |j: int| 0u8,
                ),
            decreases flags.buffer_count - i,
        {
            buffers.push(zeroed(flags.buffer_size));
            i = i + 1;
        }
        Sock { ctx, buffers }
    }

    /// The buffer a received packet goes into: the oldest free one, or, when
    /// none is free, a new zeroed buffer added after the others.
    pub fn acquire_buffer(&mut self) -> (idx: usize)
        requires
            old(self).inv(),
            old(self).buffers@.len() < usize::MAX,
        ensures
            final(self).inv(),
            final(self).ctx.id() == old(self).ctx.id(),
            final(self).ctx.buf_size() == old(self).ctx.buf_size(),
            final(self).ctx.capacity() == old(self).ctx.capacity(),
            idx < final(self).buffers@.len(),
            old(self).ctx.free().len() > 0 ==> {
                &&& idx == old(self).ctx.free()[0]
                &&& final(self).ctx.free() == old(self).ctx.free().drop_first()
                &&& final(self).buffers@ == old(self).buffers@
            },
            old(self).ctx.free().len() == 0 ==> {
                &&& idx == old(self).buffers@.len()
                &&& final(self).ctx.free() == old(self).ctx.free()
                &&& final(self).buffers@.len() == old(self).buffers@.len() + 1
                &&& final(self).buffers@.take(idx as int) == old(self).buffers@
                &&& final(self).buffers@[idx as int]@ == Seq::new(old(self).ctx.buf_size(), |i: int| 0u8)
            },
    {
        match self.ctx.take_free() {
            Some(idx) => {
                proof {
                    assert(old(self).ctx.free()[0] < self.buffers@.len());
                    assert forall|k: int| 0 <= k < self.ctx.free().len() implies #[trigger] self.ctx.free()[k]
                        < self.buffers@.len() by {
                        assert(self.ctx.free()[k] == old(self).ctx.free()[k + 1]);
                    }
                }
                idx
            },
            None => {
                let idx = self.buffers.len();
                let b = zeroed(self.ctx.buffer_size());
                self.buffers.push(b);
                proof {
                    assert(self.buffers@.take(idx as int) =~= old(self).buffers@);
                }
                idx
            },
        }
    }

    /// Hands a record of the capture to buffer `idx`: a packet is copied in
    /// (as much as fits) and a token for the buffer returned with its
    /// metadata; any other record yields `None` and leaves the buffer as it
    /// was.
    pub fn fill(&mut self, idx: usize, record: &PcapRecord) -> (r: Option<(Token, Meta)>)
        requires
            old(self).inv(),
            idx < old(self).buffers@.len(),
            old(self).ctx.buf_size() <= u32::MAX,
        ensures
            final(self).inv(),
            final(self).ctx == old(self).ctx,
            final(self).buffers@.len() == old(self).buffers@.len(),
            forall|k: int| 0 <= k < old(self).buffers@.len() && k != idx ==> #[trigger] final(self).buffers@[k]
                == old(self).buffers@[k],
            record is Other ==> r is None && final(self).buffers@[idx as int]@ == old(self).buffers@[idx as int]@,
            !(record is Other) ==> ({
                let data = record_data(*record);
                let b = old(self).buffers@[idx as int]@;
                let n = if data.len() < b.len() { data.len() } else { b.len() };
                &&& r == Some((
                    (Token { idx: BufferDesc(idx), len: n as u32, buffer_pool: old(self).ctx.id() }),
                    record_meta(*record),
                ))
                &&& final(self).buffers@[idx as int]@ == data.take(n as int) + b.skip(n as int)
            }),
    {
        let r = take_record(record, &mut self.buffers[idx]);
        proof {
            assert forall|k: int| 0 <= k < self.buffers@.len() implies #[trigger] self.buffers@[k]@.len()
                == self.ctx.buf_size() by {
                if k != idx {
                    assert(self.buffers@[k] == old(self).buffers@[k]);
                }
            }
        }
        match r {
            Some((len, meta)) => Some((Token::new(BufferDesc(idx), self.ctx.pool_id(), len), meta)),
            None => None,
        }
    }
}

/// The captured bytes of a packet record (empty for other records).
pub open spec fn record_data(r: PcapRecord) -> Seq<u8> {
    match r {
        PcapRecord::Legacy { data, .. } => data@,
        PcapRecord::Enhanced { data, .. } => data@,
        PcapRecord::Simple { data, .. } => data@,
        PcapRecord::Other => Seq::empty(),
    }
}

/// The metadata of a packet record.
pub open spec fn record_meta(r: PcapRecord) -> Meta {
    match r {
        PcapRecord::Legacy { ts_sec, ts_usec, origlen, data } => Meta {
            timestamp: Timeval { tv_sec: ts_sec as i64, tv_usec: (ts_usec as i32) as i64 },
            len: origlen,
            caplen: data@.len() as u32,
        },
        PcapRecord::Enhanced { ts_high, ts_low, origlen, data } => Meta {
            timestamp: enhanced_timestamp(ts_high, ts_low),
            len: origlen,
            caplen: data@.len() as u32,
        },
        PcapRecord::Simple { origlen, data } => Meta {
            timestamp: Timeval { tv_sec: 0, tv_usec: 0 },
            len: origlen,
            caplen: data@.len() as u32,
        },
        PcapRecord::Other => Meta { timestamp: Timeval { tv_sec: 0, tv_usec: 0 }, len: 0, caplen: 0 },
    }
}

// ---------------------------------------------------------------------------
// Reading a capture's bytes, block by block (`pcap_parser`)
// ---------------------------------------------------------------------------

/// The kind of a capture file and the byte order its blocks are read in.
#[derive(Clone, Copy, Debug, PartialEq, Eq)]
pub enum PcapFormat {
    /// Legacy pcap, little-endian.
    Legacy,
    /// Legacy pcap, big-endian.
    LegacyBigEndian,
    /// The modified legacy format (longer record headers).
    LegacyModified,
    /// pcapng, in a little-endian section.
    Ng,
    /// pcapng, in a big-endian section.
    NgBigEndian,
}

/// A record as the parser reads it, its bytes as a sequence.
pub enum RecordView {
    Legacy { ts_sec: u32, ts_usec: u32, origlen: u32, data: Seq<u8> },
    Enhanced { ts_high: u32, ts_low: u32, origlen: u32, data: Seq<u8> },
    Simple { origlen: u32, data: Seq<u8> },
    Other,
}

impl View for PcapRecord {
    type V = RecordView;

    open spec fn view(&self) -> RecordView {
        match *self {
            PcapRecord::Legacy { ts_sec, ts_usec, origlen, data } => RecordView::Legacy {
                ts_sec,
                ts_usec,
                origlen,
                data: data@,
            },
            PcapRecord::Enhanced { ts_high, ts_low, origlen, data } => RecordView::Enhanced {
                ts_high,
                ts_low,
                origlen,
                data: data@,
            },
            PcapRecord::Simple { origlen, data } => RecordView::Simple { origlen, data: data@ },
            PcapRecord::Other => RecordView::Other,
        }
    }
}

/// What parsing the block at the start of some bytes gives.
pub enum PcapStep {
    /// A block, read as a record, and how many bytes follow it.
    Block { rest: usize, record: PcapRecord },
    /// A pcapng section header, and how many bytes follow it; the blocks of
    /// the section are read in the byte order it gives.
    Section { rest: usize, big_endian: bool },
    /// The bytes end inside the block.
    Incomplete,
    /// The bytes are not a block.
    Malformed,
}

/// A parse step, its record taken by its view.
pub enum StepView {
    Block { rest: nat, record: RecordView },
    Section { rest: nat, big_endian: bool },
    Incomplete,
    Malformed,
}

impl View for PcapStep {
    type V = StepView;

    open spec fn view(&self) -> StepView {
        match *self {
            PcapStep::Block { rest, record } => StepView::Block { rest: rest as nat, record: record@ },
            PcapStep::Section { rest, big_endian } => StepView::Section { rest: rest as nat, big_endian },
            PcapStep::Incomplete => StepView::Incomplete,
            PcapStep::Malformed => StepView::Malformed,
        }
    }
}

/// What parsing a legacy file header gives.
#[derive(Clone, Copy, Debug, PartialEq, Eq)]
pub enum HeaderStep {
    /// A header of `size` bytes, with the byte order and format it names.
    Header { size: usize, big_endian: bool, modified: bool },
    Incomplete,
    Malformed,
}

/// A parse step that consumes something: a block or section leaves fewer
/// bytes than it was given.
pub open spec fn consumes(step: StepView, len: nat) -> bool {
    &&& step is Block ==> step->Block_rest < len
    &&& step is Section ==> step->Section_rest < len
}

/// A legacy record at the start of `bytes`, with a header of `hdr` bytes
/// whose words are read little- or big-endian: the timestamp, the captured
/// length and the original length, then the captured bytes. It is incomplete
/// while the bytes do not hold the header and all the captured bytes.
pub open spec fn legacy_frame(bytes: Seq<u8>, hdr: nat, big_endian: bool) -> StepView {
    if bytes.len() < hdr {
        StepView::Incomplete
    } else {
        let caplen = word(bytes, 8, big_endian);
        if hdr + caplen > bytes.len() {
            StepView::Incomplete
        } else {
            StepView::Block {
                rest: (bytes.len() - hdr - caplen) as nat,
                record: RecordView::Legacy {
                    ts_sec: word(bytes, 0, big_endian) as u32,
                    ts_usec: word(bytes, 4, big_endian) as u32,
                    origlen: word(bytes, 12, big_endian) as u32,
                    data: bytes.subrange(hdr as int, hdr + caplen),
                },
            }
        }
    }
}

/// What `pcap_parser::parse_block_le` reads at the start of `bytes`.
pub uninterp spec fn ng_block_le(bytes: Seq<u8>) -> StepView;

/// What `pcap_parser::parse_block_be` reads at the start of `bytes`.
pub uninterp spec fn ng_block_be(bytes: Seq<u8>) -> StepView;

/// The legacy file header at the start of `bytes`: its little-endian magic
/// number names the format (microsecond, nanosecond or modified; the two
/// byte-swapped magics name a big-endian file); the header is 24 bytes.
pub open spec fn legacy_header(bytes: Seq<u8>) -> HeaderStep {
    if bytes.len() < 4 {
        HeaderStep::Incomplete
    } else {
        let m = word(bytes, 0, false);
        if m == 0xa1b2_c3d4 || m == 0xa1b2_3c4d || m == 0xa1b2_cd34 || m == 0xd4c3_b2a1 || m == 0x4d3c_b2a1 {
            if bytes.len() < 24 {
                HeaderStep::Incomplete
            } else {
                HeaderStep::Header {
                    size: 24,
                    big_endian: m == 0xd4c3_b2a1 || m == 0x4d3c_b2a1,
                    modified: m == 0xa1b2_cd34,
                }
            }
        } else {
            HeaderStep::Malformed
        }
    }
}

/// Whether `pcap_parser::parse_sectionheaderblock` reads a section header at
/// the start of `bytes`.
pub uninterp spec fn section_header_at(bytes: Seq<u8>) -> bool;

/// `pcap_parser::parse_pcap_frame`: a little-endian legacy record (16-byte
/// header, then the captured bytes); never a section.
#[verifier::external_body]
fn parse_frame_le(bytes: &[u8]) -> (r: PcapStep)
    ensures
        r@ == legacy_frame(bytes@, 16, false),
        !(r is Section),
        consumes(r@, bytes@.len()),
{
    match pcap_parser::parse_pcap_frame(bytes) {
        Ok((rem, b)) => PcapStep::Block { rest: rem.len(), record: PcapRecord::Legacy {
            ts_sec: b.ts_sec, ts_usec: b.ts_usec, origlen: b.origlen, data: b.data.to_vec() } },
        Err(Incomplete(_)) => PcapStep::Incomplete,
        Err(_) => PcapStep::Malformed,
    }
}

/// `pcap_parser::parse_pcap_frame_be`: a big-endian legacy record (16-byte
/// header, then the captured bytes); never a section.
#[verifier::external_body]
fn parse_frame_be(bytes: &[u8]) -> (r: PcapStep)
    ensures
        r@ == legacy_frame(bytes@, 16, true),
        !(r is Section),
        consumes(r@, bytes@.len()),
{
    match pcap_parser::parse_pcap_frame_be(bytes) {
        Ok((rem, b)) => PcapStep::Block { rest: rem.len(), record: PcapRecord::Legacy {
            ts_sec: b.ts_sec, ts_usec: b.ts_usec, origlen: b.origlen, data: b.data.to_vec() } },
        Err(Incomplete(_)) => PcapStep::Incomplete,
        Err(_) => PcapStep::Malformed,
    }
}

/// `pcap_parser::parse_pcap_frame_modified`: a record of the modified legacy
/// format (24-byte header, then the captured bytes); never a section.
#[verifier::external_body]
fn parse_frame_modified(bytes: &[u8]) -> (r: PcapStep)
    ensures
        r@ == legacy_frame(bytes@, 24, false),
        !(r is Section),
        consumes(r@, bytes@.len()),
{
    match pcap_parser::parse_pcap_frame_modified(bytes) {
        Ok((rem, b)) => PcapStep::Block { rest: rem.len(), record: PcapRecord::Legacy {
            ts_sec: b.ts_sec, ts_usec: b.ts_usec, origlen: b.origlen, data: b.data.to_vec() } },
        Err(Incomplete(_)) => PcapStep::Incomplete,
        Err(_) => PcapStep::Malformed,
    }
}

/// `pcap_parser::parse_block_le`: a pcapng block read little-endian (every
/// block has a 12-byte frame at least); enhanced and simple packet blocks
/// become records, a section header a section, any other block `Other`.
/// The crate subtracts 12 from the length of a process information block
/// that it has only checked to be at least 4, which overflows (and panics
/// with overflow checks) for a length below 12; `requires` leaves such
/// bytes out.
#[verifier::external_body]
fn parse_ng_block_le(bytes: &[u8]) -> (r: PcapStep)
    requires
        !short_process_block(bytes@, false),
    ensures
        r@ == ng_block_le(bytes@),
        consumes(r@, bytes@.len()),
{
    match parse_block_le(bytes) {
        Ok((rem, EnhancedPacket(p))) => PcapStep::Block { rest: rem.len(), record: PcapRecord::Enhanced {
            ts_high: p.ts_high, ts_low: p.ts_low, origlen: p.origlen, data: p.data.to_vec() } },
        Ok((rem, SimplePacket(p))) => PcapStep::Block { rest: rem.len(), record: PcapRecord::Simple {
            origlen: p.origlen, data: p.data.to_vec() } },
        Ok((rem, SectionHeader(h))) => PcapStep::Section { rest: rem.len(), big_endian: h.big_endian() },
        Ok((rem, _)) => PcapStep::Block { rest: rem.len(), record: PcapRecord::Other },
        Err(Incomplete(_)) => PcapStep::Incomplete,
        Err(_) => PcapStep::Malformed,
    }
}

/// `pcap_parser::parse_block_be`: as `parse_ng_block_le`, read big-endian.
#[verifier::external_body]
fn parse_ng_block_be(bytes: &[u8]) -> (r: PcapStep)
    requires
        !short_process_block(bytes@, true),
    ensures
        r@ == ng_block_be(bytes@),
        consumes(r@, bytes@.len()),
{
    match parse_block_be(bytes) {
        Ok((rem, EnhancedPacket(p))) => PcapStep::Block { rest: rem.len(), record: PcapRecord::Enhanced {
            ts_high: p.ts_high, ts_low: p.ts_low, origlen: p.origlen, data: p.data.to_vec() } },
        Ok((rem, SimplePacket(p))) => PcapStep::Block { rest: rem.len(), record: PcapRecord::Simple {
            origlen: p.origlen, data: p.data.to_vec() } },
        Ok((rem, SectionHeader(h))) => PcapStep::Section { rest: rem.len(), big_endian: h.big_endian() },
        Ok((rem, _)) => PcapStep::Block { rest: rem.len(), record: PcapRecord::Other },
        Err(Incomplete(_)) => PcapStep::Incomplete,
        Err(_) => PcapStep::Malformed,
    }
}

/// `pcap_parser::parse_pcap_header`: the legacy file header, which is never
/// longer than the bytes it was read from.
#[verifier::external_body]
fn parse_legacy_header(bytes: &[u8]) -> (r: HeaderStep)
    ensures
        r == legacy_header(bytes@),
        r is Header ==> r->size <= bytes@.len(),
{
    match pcap_parser::parse_pcap_header(bytes) {
        Ok((_, h)) => HeaderStep::Header { size: h.size(), big_endian: h.is_bigendian(),
            modified: h.is_modified_format() },
        Err(Incomplete(_)) => HeaderStep::Incomplete,
        Err(_) => HeaderStep::Malformed,
    }
}

/// `pcap_parser::parse_sectionheaderblock`: whether the bytes start with a
/// pcapng section header. A header is at least 28 bytes and starts with the
/// block type `0x0A0D0D0A`.
#[verifier::external_body]
fn starts_with_section_header(bytes: &[u8]) -> (r: bool)
    ensures
        r == section_header_at(bytes@),
        r ==> bytes@.len() >= 28 && word(bytes@, 0, false) == SECTION_HEADER_BLOCK,
{
    pcap_parser::parse_sectionheaderblock(bytes).is_ok()
}

/// The 32-bit word at offset `k` of `bytes`, little- or big-endian.
pub open spec fn word(bytes: Seq<u8>, k: int, big_endian: bool) -> int {
    if big_endian {
        bytes[k] * 0x100_0000 + bytes[k + 1] * 0x1_0000 + bytes[k + 2] * 0x100 + bytes[k + 3]
    } else {
        bytes[k] + bytes[k + 1] * 0x100 + bytes[k + 2] * 0x1_0000 + bytes[k + 3] * 0x100_0000
    }
}

/// Type of a pcapng section header block.
pub const SECTION_HEADER_BLOCK: u32 = 0x0A0D_0D0A;

/// Type of a pcapng process information block.
pub const PROCESS_INFORMATION_BLOCK: u32 = 0x8000_0001;

/// The bytes start with a process information block whose length field is
/// at least 4 but less than the 12 bytes of a block's frame.
pub open spec fn short_process_block(bytes: Seq<u8>, big_endian: bool) -> bool {
    &&& bytes.len() >= 8
    &&& word(bytes, 0, big_endian) == PROCESS_INFORMATION_BLOCK
    &&& 4 <= word(bytes, 4, big_endian) < 12
}

/// The block at the start of `bytes`, read as `format` reads it: a pcapng
/// block whose length field is shorter than a block's frame is malformed.
pub open spec fn block_at(format: PcapFormat, bytes: Seq<u8>) -> StepView {
    match format {
        PcapFormat::Legacy => legacy_frame(bytes, 16, false),
        PcapFormat::LegacyBigEndian => legacy_frame(bytes, 16, true),
        PcapFormat::LegacyModified => legacy_frame(bytes, 24, false),
        PcapFormat::Ng => if short_process_block(bytes, false) {
            StepView::Malformed
        } else {
            ng_block_le(bytes)
        },
        PcapFormat::NgBigEndian => if short_process_block(bytes, true) {
            StepView::Malformed
        } else {
            ng_block_be(bytes)
        },
    }
}

/// The 32-bit word at offset `k` of `bytes`.
fn read_word(bytes: &[u8], k: usize, big_endian: bool) -> (w: u64)
    requires
        k + 4 <= bytes@.len(),
    ensures
        w == word(bytes@, k as int, big_endian),
{
    let b0 = bytes[k] as u64;
    let b1 = bytes[k + 1] as u64;
    let b2 = bytes[k + 2] as u64;
    let b3 = bytes[k + 3] as u64;
    if big_endian {
        b0 * 0x100_0000 + b1 * 0x1_0000 + b2 * 0x100 + b3
    } else {
        b0 + b1 * 0x100 + b2 * 0x1_0000 + b3 * 0x100_0000
    }
}

/// Whether the bytes start with a process information block whose length
/// field is shorter than a block's frame.
fn is_short_process_block(bytes: &[u8], big_endian: bool) -> (r: bool)
    ensures
        r == short_process_block(bytes@, big_endian),
{
    if bytes.len() < 8 {
        return false;
    }
    let t = read_word(bytes, 0, big_endian);
    let l = read_word(bytes, 4, big_endian);
    t == PROCESS_INFORMATION_BLOCK as u64 && 4 <= l && l < 12
}

/// Reads the block at the start of `bytes` in `format`.
pub fn read_block(format: PcapFormat, bytes: &[u8]) -> (r: PcapStep)
    ensures
        r@ == block_at(format, bytes@),
        consumes(r@, bytes@.len()),
{
    match format {
        PcapFormat::Legacy => parse_frame_le(bytes),
        PcapFormat::LegacyBigEndian => parse_frame_be(bytes),
        PcapFormat::LegacyModified => parse_frame_modified(bytes),
        PcapFormat::Ng => {
            if is_short_process_block(bytes, false) {
                PcapStep::Malformed
            } else {
                parse_ng_block_le(bytes)
            }
        },
        PcapFormat::NgBigEndian => {
            if is_short_process_block(bytes, true) {
                PcapStep::Malformed
            } else {
                parse_ng_block_be(bytes)
            }
        },
    }
}

/// How a capture that starts with `bytes` is read, as the reader picks it: a
/// pcapng file when it starts with a section header (its blocks start at
/// once, little-endian until a section says otherwise), else a legacy file
/// after its header, in the byte order and format the header names.
pub open spec fn capture_start(bytes: Seq<u8>) -> Result<(PcapFormat, usize), Error> {
    if section_header_at(bytes) {
        Ok((PcapFormat::Ng, 0usize))
    } else {
        match legacy_header(bytes) {
            HeaderStep::Header { size, big_endian, modified } => Ok((
                if modified {
                    PcapFormat::LegacyModified
                } else if big_endian {
                    PcapFormat::LegacyBigEndian
                } else {
                    PcapFormat::Legacy
                },
                size,
            )),
            HeaderStep::Incomplete => Err(Error::Pcap(PcapFailure::Incomplete)),
            HeaderStep::Malformed => Err(Error::Pcap(PcapFailure::Malformed)),
        }
    }
}

/// The format of the capture that starts with `bytes`, and where its first
/// block starts.
pub fn capture_format(bytes: &[u8]) -> (r: Result<(PcapFormat, usize), Error>)
    ensures
        r == capture_start(bytes@),
        r matches Ok((_, start)) ==> start <= bytes@.len(),
        bytes@.len() >= 24 && (word(bytes@, 0, false) == 0xa1b2_c3d4 || word(bytes@, 0, false) == 0xa1b2_3c4d)
            ==> r == Ok::<(PcapFormat, usize), Error>((PcapFormat::Legacy, 24usize)),
        bytes@.len() >= 24 && (word(bytes@, 0, false) == 0xd4c3_b2a1 || word(bytes@, 0, false) == 0x4d3c_b2a1)
            ==> r == Ok::<(PcapFormat, usize), Error>((PcapFormat::LegacyBigEndian, 24usize)),
        bytes@.len() >= 24 && word(bytes@, 0, false) == 0xa1b2_cd34 ==> r == Ok::<(PcapFormat, usize), Error>(
            (PcapFormat::LegacyModified, 24usize),
        ),
{
    if starts_with_section_header(bytes) {
        return Ok((PcapFormat::Ng, 0));
    }
    match parse_legacy_header(bytes) {
        HeaderStep::Header { size, big_endian, modified } => {
            let format = if modified {
                PcapFormat::LegacyModified
            } else if big_endian {
                PcapFormat::LegacyBigEndian
            } else {
                PcapFormat::Legacy
            };
            Ok((format, size))
        },
        HeaderStep::Incomplete => Err(Error::Pcap(PcapFailure::Incomplete)),
        HeaderStep::Malformed => Err(Error::Pcap(PcapFailure::Malformed)),
    }
}

/// How a scan for the next packet ends.
pub enum ScanEnd {
    /// At a packet record.
    Packet(RecordView),
    /// At the end of the bytes.
    End,
    /// Inside a block the bytes do not hold whole.
    Incomplete,
    /// At bytes that are not a block.
    Malformed,
}

/// The format in which the blocks after a section header are read.
pub open spec fn after_section(format: PcapFormat, big_endian: bool) -> PcapFormat {
    if big_endian { PcapFormat::NgBigEndian } else { PcapFormat::Ng }
}

/// Scanning `bytes` for the next packet, read in `format`: blocks that are
/// not packets are skipped, a section header sets the byte order of what
/// follows. Gives how many bytes were consumed, how the scan ended and the
/// format it ended in.
pub open spec fn scan_packet(format: PcapFormat, bytes: Seq<u8>) -> (nat, ScanEnd, PcapFormat)
    decreases bytes.len(),
{
    if bytes.len() == 0 {
        (0, ScanEnd::End, format)
    } else {
        match block_at(format, bytes) {
            StepView::Block { rest, record } => {
                if rest < bytes.len() {
                    let used = (bytes.len() - rest) as nat;
                    if record is Other {
                        let s = scan_packet(format, bytes.skip(used as int));
                        ((used + s.0) as nat, s.1, s.2)
                    } else {
                        (used, ScanEnd::Packet(record), format)
                    }
                } else {
                    (0, ScanEnd::Malformed, format)
                }
            },
            StepView::Section { rest, big_endian } => {
                if rest < bytes.len() {
                    let used = (bytes.len() - rest) as nat;
                    let s = scan_packet(after_section(format, big_endian), bytes.skip(used as int));
                    ((used + s.0) as nat, s.1, s.2)
                } else {
                    (0, ScanEnd::Malformed, format)
                }
            },
            StepView::Incomplete => (0, ScanEnd::Incomplete, format),
            StepView::Malformed => (0, ScanEnd::Malformed, format),
        }
    }
}

/// A scan stops at the first packet record and delivers it; only blocks that
/// are not packets are skipped. Whatever the format, when the block at the
/// start of the bytes is a legacy, enhanced or simple packet record, the scan
/// consumes just that block, ends with that record and keeps the format.
pub proof fn law_scan_delivers_packets(format: PcapFormat, bytes: Seq<u8>, rest: nat, record: RecordView)
    requires
        block_at(format, bytes) == (StepView::Block { rest, record }),
        rest < bytes.len(),
        !(record is Other),
    ensures
        scan_packet(format, bytes) == ((bytes.len() - rest) as nat, ScanEnd::Packet(record), format),
{
}

/// A block that is no packet is skipped: the scan goes on right after it,
/// in the same format.
pub proof fn law_scan_skips_other_blocks(format: PcapFormat, bytes: Seq<u8>, rest: nat)
    requires
        block_at(format, bytes) == (StepView::Block { rest, record: RecordView::Other }),
        rest < bytes.len(),
    ensures
        ({
            let used = (bytes.len() - rest) as nat;
            let s = scan_packet(format, bytes.skip(used as int));
            scan_packet(format, bytes) == ((used + s.0) as nat, s.1, s.2)
        }),
{
}

/// The blocks of a pcapng section are read in the byte order its header
/// gives: after a section header that says big-endian the scan goes on in
/// `NgBigEndian`, after one that says little-endian in `Ng`, whatever the
/// format before it.
pub proof fn law_section_sets_byte_order(format: PcapFormat, bytes: Seq<u8>, rest: nat, big_endian: bool)
    requires
        block_at(format, bytes) == (StepView::Section { rest, big_endian }),
        rest < bytes.len(),
    ensures
        ({
            let used = (bytes.len() - rest) as nat;
            let next = if big_endian { PcapFormat::NgBigEndian } else { PcapFormat::Ng };
            let s = scan_packet(next, bytes.skip(used as int));
            scan_packet(format, bytes) == ((used + s.0) as nat, s.1, s.2)
        }),
{
}

/// A big-endian section header followed by a packet block written
/// big-endian delivers that packet: the section header and the packet block
/// are both consumed, and the scan ends in `NgBigEndian`.
pub proof fn law_big_endian_section_delivers(
    format: PcapFormat,
    bytes: Seq<u8>,
    rest: nat,
    rest2: nat,
    record: RecordView,
)
    requires
        block_at(format, bytes) == (StepView::Section { rest, big_endian: true }),
        rest < bytes.len(),
        rest > 0,
        !short_process_block(bytes.skip(bytes.len() - rest), true),
        ng_block_be(bytes.skip(bytes.len() - rest)) == (StepView::Block { rest: rest2, record }),
        rest2 < rest,
        !(record is Other),
    ensures
        scan_packet(format, bytes) == ((bytes.len() - rest2) as nat, ScanEnd::Packet(record), PcapFormat::NgBigEndian),
{
    let used = (bytes.len() - rest) as nat;
    let t = bytes.skip(used as int);
    assert(t.len() == rest);
    assert(block_at(PcapFormat::NgBigEndian, t) == (StepView::Block { rest: rest2, record }));
    law_section_sets_byte_order(format, bytes, rest, true);
    law_scan_delivers_packets(PcapFormat::NgBigEndian, t, rest2, record);
}

/// The timestamp of an enhanced packet block stands for the raw count of its
/// two halves: below the threshold the count is microseconds, split exactly
/// into seconds and microseconds; at or above it the count is nanoseconds,
/// split into seconds and microseconds with the last three digits dropped.
pub proof fn law_enhanced_timestamp_counts(ts_high: u32, ts_low: u32)
    ensures
        ({
            let raw = ts_high as int * 0x1_0000_0000 + ts_low as int;
            let t = enhanced_timestamp(ts_high, ts_low);
            &&& 0 <= t.tv_usec < 1_000_000
            &&& 0 <= t.tv_sec
            &&& raw < NANOSECOND_THRESHOLD ==> t.tv_sec * 1_000_000 + t.tv_usec == raw
            &&& raw >= NANOSECOND_THRESHOLD ==> t.tv_sec * 1_000_000_000 + t.tv_usec * 1000 <= raw
                < t.tv_sec * 1_000_000_000 + t.tv_usec * 1000 + 1000
        }),
{
    let raw = ts_high as int * 0x1_0000_0000 + ts_low as int;
    assert(0 <= raw < 0x1_0000_0000_0000_0000) by (nonlinear_arith)
        requires
            raw == ts_high as int * 0x1_0000_0000 + ts_low as int,
            ts_high < 0x1_0000_0000,
            ts_low < 0x1_0000_0000,
    ;
    if raw < NANOSECOND_THRESHOLD {
        let q = raw / 1_000_000;
        let m = raw % 1_000_000;
        assert(q * 1_000_000 + m == raw && 0 <= m < 1_000_000 && 0 <= q < 0x8000_0000_0000_0000) by (nonlinear_arith)
            requires
                q == raw / 1_000_000,
                m == raw % 1_000_000,
                0 <= raw < 0x1_0000_0000_0000_0000,
        ;
    } else {
        let q = raw / 1_000_000_000;
        let m = raw % 1_000_000_000;
        let u = m / 1000;
        assert(q * 1_000_000_000 + m == raw && 0 <= m < 1_000_000_000 && 0 <= q < 0x8000_0000_0000_0000)
            by (nonlinear_arith)
            requires
                q == raw / 1_000_000_000,
                m == raw % 1_000_000_000,
                0 <= raw < 0x1_0000_0000_0000_0000,
        ;
        assert(u * 1000 <= m < u * 1000 + 1000 && 0 <= u < 1_000_000) by (nonlinear_arith)
            requires
                u == m / 1000,
                0 <= m < 1_000_000_000,
        ;
    }
}

/// The captured bytes of a record view.
pub open spec fn view_data(r: RecordView) -> Seq<u8> {
    match r {
        RecordView::Legacy { data, .. } => data,
        RecordView::Enhanced { data, .. } => data,
        RecordView::Simple { data, .. } => data,
        RecordView::Other => Seq::empty(),
    }
}

/// The metadata of a record view.
pub open spec fn view_meta(r: RecordView) -> Meta {
    match r {
        RecordView::Legacy { ts_sec, ts_usec, origlen, data } => Meta {
            timestamp: Timeval { tv_sec: ts_sec as i64, tv_usec: (ts_usec as i32) as i64 },
            len: origlen,
            caplen: data.len() as u32,
        },
        RecordView::Enhanced { ts_high, ts_low, origlen, data } => Meta {
            timestamp: enhanced_timestamp(ts_high, ts_low),
            len: origlen,
            caplen: data.len() as u32,
        },
        RecordView::Simple { origlen, data } => Meta {
            timestamp: Timeval { tv_sec: 0, tv_usec: 0 },
            len: origlen,
            caplen: data.len() as u32,
        },
        RecordView::Other => Meta { timestamp: Timeval { tv_sec: 0, tv_usec: 0 }, len: 0, caplen: 0 },
    }
}

impl Sock {
    /// Reads the next packet of a capture into buffer `idx`: from the start
    /// of `bytes`, blocks that are not packets are skipped (a section header
    /// setting `format` for what follows) and the first packet is copied in
    /// and returned as `fill` returns it. Also gives how many bytes were
    /// consumed. With no bytes left, `NoMorePackets`; a block the bytes do not
    /// hold whole, `Incomplete`; bytes that are no block, `Malformed`; the
    /// buffers are then unchanged.
    #[verifier::rlimit(50)]
    #[verifier::spinoff_prover]
    pub fn next_packet_offline(&mut self, idx: usize, format: &mut PcapFormat, bytes: &[u8]) -> (r: (
        usize,
        Result<(Token, Meta), Error>,
    ))
        requires
            old(self).inv(),
            idx < old(self).buffers@.len(),
            old(self).ctx.buf_size() <= u32::MAX,
        ensures
            final(self).inv(),
            final(self).ctx == old(self).ctx,
            final(self).buffers@.len() == old(self).buffers@.len(),
            forall|k: int| 0 <= k < old(self).buffers@.len() && k != idx ==> #[trigger] final(self).buffers@[k]
                == old(self).buffers@[k],
            ({
                let s = scan_packet(*old(format), bytes@);
                &&& r.0 == s.0
                &&& *final(format) == s.2
                &&& match s.1 {
                    ScanEnd::Packet(rec) => {
                        let data = view_data(rec);
                        let b = old(self).buffers@[idx as int]@;
                        let n = if data.len() < b.len() { data.len() } else { b.len() };
                        &&& r.1 == Ok::<(Token, Meta), Error>((
                            (Token { idx: BufferDesc(idx), len: n as u32, buffer_pool: old(self).ctx.id() }),
                            view_meta(rec),
                        ))
                        &&& final(self).buffers@[idx as int]@ == data.take(n as int) + b.skip(n as int)
                    },
                    ScanEnd::End => r.1 == Err::<(Token, Meta), Error>(Error::Pcap(PcapFailure::NoMorePackets))
                        && final(self).buffers@[idx as int]@ == old(self).buffers@[idx as int]@,
                    ScanEnd::Incomplete => r.1 == Err::<(Token, Meta), Error>(Error::Pcap(PcapFailure::Incomplete))
                        && final(self).buffers@[idx as int]@ == old(self).buffers@[idx as int]@,
                    ScanEnd::Malformed => r.1 == Err::<(Token, Meta), Error>(Error::Pcap(PcapFailure::Malformed))
                        && final(self).buffers@[idx as int]@ == old(self).buffers@[idx as int]@,
                }
            }),
    {
        let mut off: usize = 0;
        proof {
            assert(bytes@.skip(0) =~= bytes@);
        }
        while off < bytes.len()
            invariant
                off <= bytes@.len(),
                self.inv(),
                self.ctx == old(self).ctx,
                self.buffers@ == old(self).buffers@,
                idx < self.buffers@.len(),
                self.ctx.buf_size() <= u32::MAX,
                scan_packet(*old(format), bytes@) == ({
                    let s = scan_packet(*format, bytes@.skip(off as int));
                    ((off + s.0) as nat, s.1, s.2)
                }),
            decreases bytes@.len() - off,
        {
            let rest_bytes = vstd::slice::slice_subrange(bytes, off, bytes.len());
            let step = read_block(*format, rest_bytes);
            match step {
                PcapStep::Block { rest, record } => {
                    if rest >= rest_bytes.len() {
                        return (off, Err(Error::Pcap(PcapFailure::Malformed)));
                    }
                    let used = rest_bytes.len() - rest;
                    proof {
                        assert(bytes@.skip(off as int).skip(used as int) =~= bytes@.skip(off + used));
                    }
                    match record {
                        PcapRecord::Other => {
                            off = off + used;
                        },
                        _ => {
                            let got = self.fill(idx, &record);
                            match got {
                                Some(x) => {
                                    return (off + used, Ok(x));
                                },
                                None => {
                                    return (off + used, Err(Error::Pcap(PcapFailure::Malformed)));
                                },
                            }
                        },
                    }
                },
                PcapStep::Section { rest, big_endian } => {
                    if rest >= rest_bytes.len() {
                        return (off, Err(Error::Pcap(PcapFailure::Malformed)));
                    }
                    let used = rest_bytes.len() - rest;
                    proof {
                        assert(bytes@.skip(off as int).skip(used as int) =~= bytes@.skip(off + used));
                    }
                    *format = if big_endian { PcapFormat::NgBigEndian } else { PcapFormat::Ng };
                    off = off + used;
                },
                PcapStep::Incomplete => {
                    return (off, Err(Error::Pcap(PcapFailure::Incomplete)));
                },
                PcapStep::Malformed => {
                    return (off, Err(Error::Pcap(PcapFailure::Malformed)));
                },
            }
        }
        proof {
            assert(bytes@.skip(off as int) =~= Seq::<u8>::empty());
        }
        (off, Err(Error::Pcap(PcapFailure::NoMorePackets)))
    }
}

/// The buffer a socket receives into next: its oldest free buffer, or a new
/// one after the others.
pub open spec fn next_buffer(s: Sock) -> int {
    if s.ctx.free().len() > 0 {
        s.ctx.free()[0] as int
    } else {
        s.buffers@.len() as int
    }
}

/// The free buffers once the next one is taken.
pub open spec fn free_after_take(s: Sock) -> Seq<usize> {
    if s.ctx.free().len() > 0 {
        s.ctx.free().drop_first()
    } else {
        s.ctx.free()
    }
}

/// The bytes of the buffer taken next: those it holds, or zeros for a new one.
pub open spec fn buffer_taken(s: Sock) -> Seq<u8> {
    if s.ctx.free().len() > 0 {
        s.buffers@[next_buffer(s)]@
    } else {
        Seq::new(s.ctx.buf_size(), |i: int| 0u8)
    }
}

impl Sock {
    /// Receives the next packet of a capture (`recv_token`): a buffer is
    /// taken as `acquire_buffer` takes it and the packet read into it as
    /// `next_packet_offline` reads it. When no packet comes, the buffer is
    /// given back to the pool.
    pub fn recv_token(&mut self, format: &mut PcapFormat, bytes: &[u8]) -> (r: (usize, Result<(Token, Meta), Error>))
        requires
            old(self).inv(),
            old(self).buffers@.len() < usize::MAX,
            old(self).ctx.buf_size() <= u32::MAX,
        ensures
            final(self).inv(),
            final(self).ctx.id() == old(self).ctx.id(),
            final(self).ctx.buf_size() == old(self).ctx.buf_size(),
            final(self).ctx.capacity() == old(self).ctx.capacity(),
            ({
                let idx = next_buffer(*old(self));
                let sc = scan_packet(*old(format), bytes@);
                let b = buffer_taken(*old(self));
                &&& r.0 == sc.0
                &&& *final(format) == sc.2
                &&& 0 <= idx < final(self).buffers@.len()
                &&& match sc.1 {
                    ScanEnd::Packet(rec) => {
                        let data = view_data(rec);
                        let n = if data.len() < b.len() { data.len() } else { b.len() };
                        &&& r.1 == Ok::<(Token, Meta), Error>((
                            (Token { idx: BufferDesc(idx as usize), len: n as u32, buffer_pool: old(self).ctx.id() }),
                            view_meta(rec),
                        ))
                        &&& final(self).buffers@[idx]@ == data.take(n as int) + b.skip(n as int)
                        &&& final(self).ctx.free() == free_after_take(*old(self))
                    },
                    _ => {
                        &&& r.1 == Err::<(Token, Meta), Error>(Error::Pcap(
                            if sc.1 is End {
                                PcapFailure::NoMorePackets
                            } else if sc.1 is Incomplete {
                                PcapFailure::Incomplete
                            } else {
                                PcapFailure::Malformed
                            },
                        ))
                        &&& final(self).buffers@[idx]@ == b
                        &&& final(self).ctx.free() == released(
                            free_after_take(*old(self)),
                            old(self).ctx.capacity(),
                            idx as usize,
                        )
                    },
                }
            }),
    {
        let idx = self.acquire_buffer();
        let (used, r) = self.next_packet_offline(idx, format, bytes);
        match r {
            Ok(x) => (used, Ok(x)),
            Err(e) => {
                let ghost before = *self;
                self.ctx.release(BufferDesc(idx));
                proof {
                    assert forall|k: int| 0 <= k < self.ctx.free().len() implies #[trigger] self.ctx.free()[k]
                        < self.buffers@.len() by {
                        if k < before.ctx.free().len() {
                            assert(self.ctx.free()[k] == before.ctx.free()[k]);
                        }
                    }
                }
                (used, Err(e))
            },
        }
    }
}

} // verus!
