//! The channels a socket can give its free buffers back through, chosen by
//! strategy: the batched multi-producer channel of this crate, or a plain
//! channel of the standard library or of crossbeam.

use vstd::prelude::*;
use crate::mpsc::consumer_registry::ConsumerRegistry;
use crate::mpsc::{in_flight, pop_step, registered, room, Consumer, Producer};

verus! {

/// Capacity of a crossbeam channel when none is given.
pub const DEFAULT_BUFFER_SIZE: usize = 65536;

/// Consumer-side buffer size of the batched channel when none is given.
pub const DEFAULT_CONSUMER_BUFFER_SIZE: usize = 256;

/// Producer-side buffer size of the batched channel when none is given.
pub const DEFAULT_PRODUCER_BUFFER_SIZE: usize = 256;

/// The batched multi-producer channel.
#[derive(Clone, Copy, Debug)]
pub struct MpscStrategy;

/// Settings of the batched channel.
#[derive(Clone, Copy, Debug)]
pub struct MpscArgs {
    pub consumer_buffer_size: usize,
    pub producer_buffer_size: usize,
}

impl Default for MpscArgs {
    fn default() -> (a: Self)
        ensures
            a.consumer_buffer_size == DEFAULT_CONSUMER_BUFFER_SIZE,
            a.producer_buffer_size == DEFAULT_PRODUCER_BUFFER_SIZE,
    {
        MpscArgs {
            consumer_buffer_size: DEFAULT_CONSUMER_BUFFER_SIZE,
            producer_buffer_size: DEFAULT_PRODUCER_BUFFER_SIZE,
        }
    }
}

/// The standard library's channel.
#[derive(Clone, Copy, Debug)]
pub struct StdStrategy;

/// Settings of the standard library's channel (none).
#[derive(Clone, Copy, Debug)]
pub struct StdArgs;

impl Default for StdArgs {
    fn default() -> (a: Self)
        ensures
            a == StdArgs,
    {
        StdArgs
    }
}

/// A bounded crossbeam channel.
#[derive(Clone, Copy, Debug)]
pub struct CrossbeamStrategy;

/// Settings of a crossbeam channel: its capacity.
#[derive(Clone, Copy, Debug)]
pub struct CrossbeamArgs {
    pub buffer_size: usize,
}

impl Default for CrossbeamArgs {
    fn default() -> (a: Self)
        ensures
            a.buffer_size == DEFAULT_BUFFER_SIZE,
    {
        CrossbeamArgs { buffer_size: DEFAULT_BUFFER_SIZE }
    }
}

/// The settings of one of the strategies.
#[derive(Clone, Copy, Debug)]
pub enum StrategyArgs {
    Mpsc(MpscArgs),
    Std(StdArgs),
    Crossbeam(CrossbeamArgs),
}

/// The consumer end of the batched channel.
pub struct MpscConsumer {
    pub inner: Consumer<usize>,
}

/// The producer end of the batched channel.
pub struct MpscProducer {
    pub inner: Producer<usize>,
}

impl MpscStrategy {
    /// A batched channel for `nbufs` buffers: its producer, its consumer and
    /// the registry of producer queues. The settings must be those of this
    /// strategy; the channel's batch (16) and cache (1024) sizes are fixed.
    pub fn create(nbufs: usize, args: StrategyArgs) -> (r: (MpscProducer, MpscConsumer, ConsumerRegistry))
        requires
            args is Mpsc,
            nbufs as int * 128 <= isize::MAX,
        ensures
            r.0.inner.inner is None,
            r.0.inner.batch().len() == 0,
            r.1.inner.cache().len() == 0,
            r.2.wf(),
            r.2.entries().len() == 0,
            r.2.single_spsc_len == nbufs,
    {
        let (producer, consumer, registry) = crate::mpsc::channel(nbufs);
        (MpscProducer { inner: producer }, MpscConsumer { inner: consumer }, registry)
    }
}

impl MpscConsumer {
    /// The next free buffer, refilling from the producers' queues when the
    /// cache is empty; `None` when there is none.
    pub fn pop(&mut self, registry: &mut ConsumerRegistry) -> (r: Option<usize>)
        requires
            old(registry).wf(),
        ensures
            final(registry).wf(),
            final(registry).same_queues(&*old(registry)),
            ({
                let st = pop_step(old(self).inner.cache(), old(registry).queues());
                &&& r == st.0
                &&& final(self).inner.cache() == st.1
                &&& final(registry).queues() == st.2
            }),
    {
        self.inner.pop(registry)
    }

    /// Number of cached buffers.
    pub fn available_len(&self) -> (n: usize)
        ensures
            n == self.inner.cache().len(),
    {
        self.inner.available_len()
    }

    /// Refills the cache from the producers' queues.
    pub fn sync(&mut self, registry: &mut ConsumerRegistry)
        requires
            old(registry).wf(),
        ensures
            final(registry).wf(),
            final(registry).same_queues(&*old(registry)),
            final(self).inner.cache() == crate::mpsc::consumer_registry::drained_cache(
                old(registry).queues(),
                old(self).inner.cache(),
                old(registry).entries().len() as int,
            ),
    {
        self.inner.sync(registry)
    }
}

impl MpscProducer {
    /// Gives buffer `elem` back; nothing is lost or reordered.
    pub fn push(&mut self, registry: &mut ConsumerRegistry, elem: usize)
        requires
            old(registry).wf(),
            registered(old(self).inner, *old(registry)),
            old(self).inner.batch().len() == 16 ==> old(self).inner.can_flush(&*old(registry)),
            old(self).inner.batch().len() <= 16,
        ensures
            final(registry).wf(),
            final(self).inner.batch().len() <= 16,
            registered(final(self).inner, *final(registry)),
            in_flight(final(self).inner, *final(registry)) == in_flight(old(self).inner, *old(registry)).push(elem),
    {
        self.inner.push(registry, elem)
    }

    /// Hands the producer's whole batch over.
    pub fn flush(&mut self, registry: &mut ConsumerRegistry)
        requires
            old(registry).wf(),
            registered(old(self).inner, *old(registry)),
            old(self).inner.can_hand_over(&*old(registry)),
            old(self).inner.batch().len() <= 16,
        ensures
            final(registry).wf(),
            registered(final(self).inner, *final(registry)),
            in_flight(final(self).inner, *final(registry)) == in_flight(old(self).inner, *old(registry)),
            old(self).inner.batch().len() == 16 ==> room(final(self).inner, *final(registry)) == room(
                old(self).inner,
                *old(registry),
            ) - 1,
    {
        self.inner.flush(registry)
    }
}

} // verus!
