//! DPDK: the socket logic over a port queue. The port itself (EAL set-up,
//! bursts, mbuf allocation) is driven by the caller.

pub mod wrapper;

use vstd::prelude::*;
use crate::api::buffer::BufferDesc;
use crate::api::context::Context;
use crate::api::metadata::{Metadata, MetadataType};
use crate::api::socket::Flags;
use crate::api::token::Token;
use crate::capvec::{index_cache_clear, index_cache_to_vec};
use crate::errors::Error;
use crate::mpsc::consumer_registry::{drained_cache, drained_queues, ConsumerRegistry};
use crate::mpsc::{Consumer, Producer};
use wrapper::{Receiver, Transmitter};

verus! {

/// The context of a DPDK socket: the id of its mbuf pool.
#[derive(Clone, Copy, Debug)]
pub struct Ctx {
    pub index: u32,
}

impl Ctx {
    /// The context of pool `index`, with a new channel for its `nbufs`
    /// mbufs: the producer end, the consumer end and their registry.
    pub fn new(nbufs: usize, index: u32) -> (r: (Self, Producer<BufferDesc>, Consumer<BufferDesc>, ConsumerRegistry))
        requires
            nbufs as int * 128 <= isize::MAX,
        ensures
            r.0.index == index,
            r.1.inner is None,
            r.1.batch().len() == 0,
            r.2.cache().len() == 0,
            r.3.wf(),
            r.3.entries().len() == 0,
            r.3.single_spsc_len == nbufs,
    {
        let (producer, consumer, registry) = crate::mpsc::channel(nbufs);
        (Ctx { index }, producer, consumer, registry)
    }
}

impl Context for Ctx {
    open spec fn id(&self) -> u32 {
        self.index
    }

    fn pool_id(&self) -> (r: u32) {
        self.index
    }
}

/// Per-packet metadata (none).
#[derive(Clone, Copy, Debug, PartialEq, Eq)]
pub struct Meta {}

impl Metadata for Meta {
    fn into_enum(self) -> (m: MetadataType)
        ensures
            m == MetadataType::Dpdk(self),
    {
        MetadataType::Dpdk(self)
    }
}

/// Options of a DPDK socket: the mbuf pool's size, per-core cache and buffer
/// size.
#[derive(Clone, Copy, Debug)]
pub struct DpdkFlags {
    pub num_mbufs: u32,
    pub mbuf_cache_size: u32,
    pub mbuf_default_buf_size: u16,
}

impl Flags for DpdkFlags {}

/// The fields of an mbuf that sending touches, and the bytes of its buffer.
#[derive(Clone, Debug)]
pub struct MBuf {
    pub buf_len: u16,
    pub data_off: u16,
    pub data_len: u16,
    pub pkt_len: u32,
    pub data: Vec<u8>,
}

/// A DPDK socket: its transmitter and receiver, its context and the consumer
/// end of its channel of mbufs to free.
pub struct Sock {
    pub tx: Transmitter,
    pub rx: Receiver,
    pub ctx: Ctx,
    pub consumer: Consumer<BufferDesc>,
}

impl Sock {
    /// A socket over a receiver and a transmitter.
    pub fn new(tx: Transmitter, rx: Receiver, ctx: Ctx, consumer: Consumer<BufferDesc>) -> (s: Self)
        ensures
            s.tx == tx,
            s.rx == rx,
            s.ctx == ctx,
            s.consumer == consumer,
    {
        Sock { tx, rx, ctx, consumer }
    }

    /// The token for a received mbuf: its address and its data length.
    pub fn recv_inner(&self, buf: usize, data_len: u16) -> (r: Result<(Token, Meta), Error>)
        ensures
            r == Ok::<(Token, Meta), Error>((
                Token { idx: BufferDesc(buf), len: data_len as u32, buffer_pool: self.ctx.index },
                Meta {},
            )),
    {
        let token = Token { idx: BufferDesc(buf), len: data_len as u32, buffer_pool: self.ctx.pool_id() };
        Ok((token, Meta {}))
    }

    /// Puts `packet` in a free mbuf: the bytes go to the start of its buffer,
    /// which becomes the start of its data, and its lengths grow by the
    /// packet's. A packet longer than the buffer is refused.
    pub fn send_inner(&self, m: &mut MBuf, packet: &[u8]) -> (r: Result<(), Error>)
        requires
            old(m).data@.len() >= old(m).buf_len,
            packet@.len() <= old(m).buf_len ==> old(m).data_len + packet@.len() <= u16::MAX,
            packet@.len() <= old(m).buf_len ==> old(m).pkt_len + packet@.len() <= u32::MAX,
        ensures
            packet@.len() > old(m).buf_len ==> r == Err::<(), Error>(Error::TooBigPacket(packet@.len() as usize))
                && *final(m) == *old(m),
            packet@.len() <= old(m).buf_len ==> {
                &&& r is Ok
                &&& final(m).buf_len == old(m).buf_len
                &&& final(m).data_off == 0
                &&& final(m).data_len == old(m).data_len + packet@.len()
                &&& final(m).pkt_len == old(m).pkt_len + packet@.len()
                &&& final(m).data@ == packet@ + old(m).data@.skip(packet@.len() as int)
            },
    {
        if packet.len() > m.buf_len as usize {
            return Err(Error::TooBigPacket(packet.len()));
        }
        let len = packet.len() as u16;
        m.data_off = 0;
        m.data_len = m.data_len + len;
        m.pkt_len = m.pkt_len + len as u32;
        let ghost d0 = m.data@;
        let ghost m1 = *m;
        let mut i: usize = 0;
        while i < packet.len()
            invariant
                m.buf_len == m1.buf_len,
                m.data_off == m1.data_off,
                m.data_len == m1.data_len,
                m.pkt_len == m1.pkt_len,
                i <= packet@.len() <= d0.len(),
                m.data@.len() == d0.len(),
                m.data@ == packet@.take(i as int) + d0.skip(i as int),
            decreases packet@.len() - i,
        {
            m.data.set(i, packet[i]);
            i = i + 1;
            proof {
                assert(m.data@ =~= packet@.take(i as int) + d0.skip(i as int));
            }
        }
        proof {
            assert(packet@.take(packet@.len() as int) =~= packet@);
        }
        Ok(())
    }

    /// The mbufs given back since the last call, to be freed to the pool in
    /// bulk: the consumer is refilled from the producers' queues and its whole
    /// cache is handed out.
    pub fn flush_to_memory_pool(&mut self, registry: &mut ConsumerRegistry) -> (freed: Vec<usize>)
        requires
            old(registry).wf(),
        ensures
            final(registry).wf(),
            final(registry).same_queues(&*old(registry)),
            freed@ == drained_cache(old(registry).queues(), old(self).consumer.cache(), old(registry).entries().len() as int),
            final(registry).queues() == drained_queues(old(registry).queues(), old(self).consumer.cache()),
            final(self).consumer.cache().len() == 0,
            final(self).tx == old(self).tx,
            final(self).rx == old(self).rx,
            final(self).ctx == old(self).ctx,
    {
        self.consumer.sync(registry);
        let freed = index_cache_to_vec(&self.consumer.cached);
        index_cache_clear(&mut self.consumer.cached);
        freed
    }
}

} // verus!
