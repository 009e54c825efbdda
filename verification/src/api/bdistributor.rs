//! Errors of the channels that distribute packet batches, and the base trait
//! of those channels.

use vstd::prelude::*;
use std::collections::VecDeque;

verus! {

/// A channel backend that can be built from its inner value.
pub trait BDistributor<T>: Sized {
    /// The backend built from `inner`: `inner` itself.
    fn create(inner: Self) -> (r: Self)
        ensures
            r == inner,
    ;
}

/// Why popping failed.
#[derive(PartialEq, Eq, Clone, Copy, Debug)]
pub enum TryPopError {
    /// The channel is empty but not closed.
    Empty,
    /// The channel is empty and closed.
    Closed,
}

impl TryPopError {
    pub fn is_empty(&self) -> (r: bool)
        ensures
            r == (*self is Empty),
    {
        match self {
            TryPopError::Empty => true,
            TryPopError::Closed => false,
        }
    }

    pub fn is_closed(&self) -> (r: bool)
        ensures
            r == (*self is Closed),
    {
        match self {
            TryPopError::Empty => false,
            TryPopError::Closed => true,
        }
    }

    /// The error's message.
    pub fn message(&self) -> (s: &'static str)
        ensures
            *self is Empty ==> s@ == "popping from an empty channel"@,
            *self is Closed ==> s@ == "popping from an empty and closed channel"@,
    {
        match self {
            TryPopError::Empty => "popping from an empty channel",
            TryPopError::Closed => "popping from an empty and closed channel",
        }
    }
}

/// Popping from an empty and closed channel.
#[derive(PartialEq, Eq, Clone, Copy, Debug)]
pub struct PopError;

impl PopError {
    /// The error's message.
    pub fn message(&self) -> (s: &'static str)
        ensures
            s@ == "async popping from an empty and closed channel"@,
    {
        "async popping from an empty and closed channel"
    }
}

/// Pushing into a closed channel; holds the batch that was not pushed.
#[derive(PartialEq, Eq, Clone, Debug)]
pub struct PushError<T>(pub T);

impl<T> PushError<T> {
    /// The batch that was not pushed.
    pub fn into_inner(self) -> (r: T)
        ensures
            r == self.0,
    {
        self.0
    }

    /// The error's message.
    pub fn message(&self) -> (s: &'static str)
        ensures
            s@ == "async pushing into a closed channel"@,
    {
        "async pushing into a closed channel"
    }
}

/// Why pushing failed; holds the batch that was not pushed.
#[derive(PartialEq, Eq, Clone, Debug)]
pub enum TryPushError<T> {
    /// The channel is full but not closed.
    Full(T),
    /// The channel is closed.
    Closed(T),
}

impl<T> TryPushError<T> {
    /// The batch that was not pushed.
    pub fn into_inner(self) -> (r: T)
        ensures
            r == match self {
                TryPushError::Full(b) => b,
                TryPushError::Closed(b) => b,
            },
    {
        match self {
            TryPushError::Full(batch) => batch,
            TryPushError::Closed(batch) => batch,
        }
    }

    pub fn is_full(&self) -> (r: bool)
        ensures
            r == (*self is Full),
    {
        match self {
            TryPushError::Full(_) => true,
            TryPushError::Closed(_) => false,
        }
    }

    pub fn is_closed(&self) -> (r: bool)
        ensures
            r == (*self is Closed),
    {
        match self {
            TryPushError::Full(_) => false,
            TryPushError::Closed(_) => true,
        }
    }

    /// The error's message.
    pub fn message(&self) -> (s: &'static str)
        ensures
            *self is Full ==> s@ == "pushing into a full channel"@,
            *self is Closed ==> s@ == "pushing into a closed channel"@,
    {
        match self {
            TryPushError::Full(_) => "pushing into a full channel",
            TryPushError::Closed(_) => "pushing into a closed channel",
        }
    }
}

/// The N-way single-producer/single-consumer channel family: the value that
/// creates the producer and the consumers.
pub struct NSPSCChannel<T> {
    pub _marker: core::marker::PhantomData<T>,
}

impl<T> NSPSCChannel<T> {
    pub fn new() -> (r: Self) {
        NSPSCChannel { _marker: core::marker::PhantomData }
    }
}

impl<T> BDistributor<T> for NSPSCChannel<T> {
    fn create(inner: Self) -> (r: Self) {
        inner
    }
}

// ---------------------------------------------------------------------------
// N-way single-producer/single-consumer channels
// ---------------------------------------------------------------------------

/// The bounded FIFO queues of an N-way channel, one per consumer: the ring
/// buffers that the producer side and the consumers share.
pub struct NspscQueues<T> {
    pub queues: Vec<VecDeque<T>>,
    pub capacity: usize,
}

impl<T> NspscQueues<T> {
    /// The contents of the queues.
    pub open spec fn view(&self) -> Seq<Seq<T>> {
        Seq::new(self.queues@.len(), |i: int| self.queues@[i]@)
    }

    /// No queue holds more than the capacity.
    pub open spec fn wf(&self) -> bool {
        forall|i: int| 0 <= i < self.queues@.len() ==> (#[trigger] self.queues@[i])@.len() <= self.capacity
    }
}

/// The producer end of one queue.
pub struct Producer<T> {
    pub index: usize,
    pub _marker: core::marker::PhantomData<T>,
}

impl<T> Producer<T> {
    /// Appends `item` to the queue; a full queue gives it back.
    pub fn push(&mut self, queues: &mut NspscQueues<T>, item: T) -> (r: Result<(), T>)
        requires
            old(queues).wf(),
            old(self).index < old(queues).queues@.len(),
        ensures
            final(queues).wf(),
            *final(self) == *old(self),
            final(queues).capacity == old(queues).capacity,
            old(queues)@[old(self).index as int].len() < old(queues).capacity ==> r is Ok && final(queues)@
                == old(queues)@.update(old(self).index as int, old(queues)@[old(self).index as int].push(item)),
            old(queues)@[old(self).index as int].len() >= old(queues).capacity ==> r == Err::<(), T>(item)
                && final(queues)@ == old(queues)@,
    {
        let k = self.index;
        if queues.queues[k].len() >= queues.capacity {
            return Err(item);
        }
        let ghost q0 = queues@;
        let mut q = queues.queues.remove(k);
        q.push_back(item);
        queues.queues.insert(k, q);
        proof {
            assert(queues@ =~= q0.update(k as int, q0[k as int].push(item)));
            assert forall|i: int| 0 <= i < queues.queues@.len() implies (#[trigger] queues.queues@[i])@.len() <= queues.capacity by {
                if i != k {
                    assert(queues.queues@[i]@ == q0[i]);
                }
            }
        }
        Ok(())
    }
}

/// The consumer end of one queue.
pub struct Consumer<T> {
    pub index: usize,
    pub _marker: core::marker::PhantomData<T>,
}

impl<T> Consumer<T> {
    /// The oldest item of the queue, if any.
    pub fn pop(&self, queues: &mut NspscQueues<T>) -> (r: Option<T>)
        requires
            old(queues).wf(),
            self.index < old(queues).queues@.len(),
        ensures
            final(queues).wf(),
            final(queues).capacity == old(queues).capacity,
            old(queues)@[self.index as int].len() == 0 ==> r is None && final(queues)@ == old(queues)@,
            old(queues)@[self.index as int].len() > 0 ==> r == Some(old(queues)@[self.index as int][0])
                && final(queues)@ == old(queues)@.update(self.index as int, old(queues)@[self.index as int].drop_first()),
    {
        let k = self.index;
        if queues.queues[k].len() == 0 {
            return None;
        }
        let ghost q0 = queues@;
        let mut q = queues.queues.remove(k);
        let r = q.pop_front();
        queues.queues.insert(k, q);
        proof {
            assert(queues@ =~= q0.update(k as int, q0[k as int].drop_first()));
            assert forall|i: int| 0 <= i < queues.queues@.len() implies (#[trigger] queues.queues@[i])@.len() <= queues.capacity by {
                if i != k {
                    assert(queues.queues@[i]@ == q0[i]);
                }
            }
        }
        r
    }
}

/// The producer side of an N-way channel: one producer per queue.
pub struct MultiProducer<T> {
    pub prods: Vec<Producer<T>>,
}

impl<T> MultiProducer<T> {
    /// Pushes `item` into queue `index`; a full queue gives it back.
    pub fn push_at(&mut self, queues: &mut NspscQueues<T>, index: usize, item: T) -> (r: Result<(), T>)
        requires
            old(queues).wf(),
            index < old(self).prods@.len(),
            old(self).prods@[index as int].index < old(queues).queues@.len(),
        ensures
            final(queues).wf(),
            final(self).prods@ == old(self).prods@,
            final(queues).capacity == old(queues).capacity,
            ({
                let k = old(self).prods@[index as int].index as int;
                &&& old(queues)@[k].len() < old(queues).capacity ==> r is Ok && final(queues)@ == old(queues)@.update(
                    k,
                    old(queues)@[k].push(item),
                )
                &&& old(queues)@[k].len() >= old(queues).capacity ==> r == Err::<(), T>(item) && final(queues)@ == old(
                    queues,
                )@
            }),
    {
        let mut p = self.prods.remove(index);
        let r = p.push(queues, item);
        self.prods.insert(index, p);
        proof {
            assert(self.prods@ =~= old(self).prods@);
        }
        r
    }
}

/// An N-way channel of `n` queues of `capacity` items each: the producer side,
/// the consumers (consumer `i` reads queue `i`) and the empty queues.
pub fn nspsc_channel<T>(capacity: usize, n: usize) -> (r: (MultiProducer<T>, Vec<Consumer<T>>, NspscQueues<T>))
    ensures
        r.0.prods@.len() == n,
        r.1@.len() == n,
        r.2.wf(),
        r.2.capacity == capacity,
        r.2@.len() == n,
        forall|i: int| 0 <= i < n ==> (#[trigger] r.2@[i]).len() == 0,
        forall|i: int| 0 <= i < n ==> (#[trigger] r.0.prods@[i]).index == i && r.1@[i].index == i,
{
    let mut prods: Vec<Producer<T>> = Vec::new();
    let mut cons: Vec<Consumer<T>> = Vec::new();
    let mut queues: Vec<VecDeque<T>> = Vec::new();
    let mut i: usize = 0;
    while i < n
        invariant
            i <= n,
            prods@.len() == i,
            cons@.len() == i,
            queues@.len() == i,
            forall|j: int| 0 <= j < i ==> (#[trigger] queues@[j])@.len() == 0,
            forall|j: int| 0 <= j < i ==> (#[trigger] prods@[j]).index == j && cons@[j].index == j,
        decreases n - i,
    {
        prods.push(Producer { index: i, _marker: core::marker::PhantomData });
        cons.push(Consumer { index: i, _marker: core::marker::PhantomData });
        queues.push(VecDeque::new());
        i = i + 1;
    }
    let q = NspscQueues { queues, capacity };
    proof {
        assert forall|j: int| 0 <= j < n implies (#[trigger] q@[j]).len() == 0 by {
            assert(q.queues@[j]@.len() == 0);
        }
    }
    (MultiProducer { prods }, cons, q)
}

/// Pushing batches into an N-way channel, to the queue of a given consumer.
pub trait NSPSCBDistributorPusher<T>: Sized {
    /// Consumer `index` exists and the queues are well formed.
    spec fn pushable(&self, queues: &NspscQueues<T>, index: usize) -> bool;

    /// Pushes `batch` to consumer `index` without waiting.
    fn try_push(&mut self, queues: &mut NspscQueues<T>, batch: T, index: usize) -> Result<(), TryPushError<T>>
        requires
            old(self).pushable(&*old(queues), index),
    ;
}

/// Popping batches from one queue of an N-way channel.
pub trait NSPSCBDistributorPopper<T>: Sized {
    /// The consumer's queue exists and the queues are well formed.
    spec fn poppable(&self, queues: &NspscQueues<T>) -> bool;

    /// Pops the oldest batch without waiting.
    fn try_pop(&self, queues: &mut NspscQueues<T>) -> Result<T, TryPopError>
        requires
            self.poppable(&*old(queues)),
    ;
}

/// An N-way channel family that splits into a producer side and `n`
/// consumers.
pub trait NSPSCBDistributor<T>: Sized {
    fn split(self, n: usize) -> (MultiProducer<T>, Vec<Consumer<T>>, NspscQueues<T>);
}

/// Capacity of each queue of the channels `NSPSCChannel` makes.
pub const NSPSC_QUEUE_CAPACITY: usize = 1024;

impl<T> NSPSCBDistributor<T> for NSPSCChannel<T> {
    /// Queues of `NSPSC_QUEUE_CAPACITY` batches.
    fn split(self, n: usize) -> (r: (MultiProducer<T>, Vec<Consumer<T>>, NspscQueues<T>))
        ensures
            r.0.prods@.len() == n,
            r.1@.len() == n,
            r.2.wf(),
            r.2.capacity == NSPSC_QUEUE_CAPACITY,
            r.2@.len() == n,
            forall|i: int| 0 <= i < n ==> (#[trigger] r.2@[i]).len() == 0,
            forall|i: int| 0 <= i < n ==> (#[trigger] r.0.prods@[i]).index == i && r.1@[i].index == i,
    {
        nspsc_channel(NSPSC_QUEUE_CAPACITY, n)
    }
}

impl<T> NSPSCBDistributorPusher<T> for MultiProducer<T> {
    open spec fn pushable(&self, queues: &NspscQueues<T>, index: usize) -> bool {
        &&& queues.wf()
        &&& index < self.prods@.len()
        &&& self.prods@[index as int].index < queues.queues@.len()
    }

    /// A full queue gives the batch back as `Full`.
    fn try_push(&mut self, queues: &mut NspscQueues<T>, batch: T, index: usize) -> (r: Result<(), TryPushError<T>>)
        ensures
            final(queues).wf(),
            final(self).prods@ == old(self).prods@,
            ({
                let k = old(self).prods@[index as int].index as int;
                &&& old(queues)@[k].len() < old(queues).capacity ==> r is Ok && final(queues)@ == old(queues)@.update(
                    k,
                    old(queues)@[k].push(batch),
                )
                &&& old(queues)@[k].len() >= old(queues).capacity ==> r == Err::<(), TryPushError<T>>(
                    TryPushError::Full(batch),
                ) && final(queues)@ == old(queues)@
            }),
    {
        match self.push_at(queues, index, batch) {
            Ok(()) => Ok(()),
            Err(b) => Err(TryPushError::Full(b)),
        }
    }
}

impl<T> NSPSCBDistributorPopper<T> for Consumer<T> {
    open spec fn poppable(&self, queues: &NspscQueues<T>) -> bool {
        &&& queues.wf()
        &&& self.index < queues.queues@.len()
    }

    /// An empty queue gives `Empty`.
    fn try_pop(&self, queues: &mut NspscQueues<T>) -> (r: Result<T, TryPopError>)
        ensures
            final(queues).wf(),
            old(queues)@[self.index as int].len() == 0 ==> r == Err::<T, TryPopError>(TryPopError::Empty)
                && final(queues)@ == old(queues)@,
            old(queues)@[self.index as int].len() > 0 ==> r == Ok::<T, TryPopError>(old(queues)@[self.index as int][0])
                && final(queues)@ == old(queues)@.update(self.index as int, old(queues)@[self.index as int].drop_first()),
    {
        match self.pop(queues) {
            Some(b) => Ok(b),
            None => Err(TryPopError::Empty),
        }
    }
}

// ---------------------------------------------------------------------------
// Single-producer/multi-consumer channels
// ---------------------------------------------------------------------------

/// The bounded FIFO queue that the producer and all consumers of a
/// single-producer/multi-consumer channel share.
pub struct SpmcQueue<T> {
    pub items: VecDeque<T>,
    pub capacity: usize,
}

impl<T> SpmcQueue<T> {
    pub open spec fn wf(&self) -> bool {
        self.items@.len() <= self.capacity
    }
}

/// The producer end (the queue is passed to its operations).
#[derive(Clone, Copy, Debug)]
pub struct SpmcSender;

/// A consumer end; consumers are clones of one another.
#[derive(Clone, Copy, Debug)]
pub struct SpmcReceiver;

/// A channel of capacity `capacity`: its producer end, one consumer end and
/// the empty queue.
pub fn spmc_channel<T>(capacity: usize) -> (r: (SpmcSender, SpmcReceiver, SpmcQueue<T>))
    ensures
        r.2.wf(),
        r.2.capacity == capacity,
        r.2.items@.len() == 0,
{
    (SpmcSender, SpmcReceiver, SpmcQueue { items: VecDeque::new(), capacity })
}

/// Pushing batches into a single-producer/multi-consumer channel.
pub trait SPMCBDistributorPusher<T>: Sized {
    /// Pushes `batch` without waiting.
    fn try_push(&self, queue: &mut SpmcQueue<T>, batch: T) -> Result<(), TryPushError<T>>
        requires
            old(queue).wf(),
    ;
}

/// Popping batches from a single-producer/multi-consumer channel.
pub trait SPMCBDistributorPopper<T>: Clone {
    /// Pops the oldest batch without waiting.
    fn try_pop(&self, queue: &mut SpmcQueue<T>) -> Result<T, TryPopError>
        requires
            old(queue).wf(),
    ;
}

/// A single-producer/multi-consumer channel that splits into its producer and
/// `n` consumers.
pub trait SPMCBDistributor<T>: Sized {
    fn split(self, n: usize) -> (SpmcSender, Vec<SpmcReceiver>);
}

/// Both ends of a single-producer/multi-consumer channel.
pub struct SpmcChannel<T> {
    pub sender: SpmcSender,
    pub receiver: SpmcReceiver,
    pub _marker: core::marker::PhantomData<T>,
}

impl<T> SPMCBDistributor<T> for SpmcChannel<T> {
    /// The producer and `n` consumers: the channel's own and `n - 1` clones
    /// of it (at least the channel's own).
    fn split(self, n: usize) -> (r: (SpmcSender, Vec<SpmcReceiver>))
        ensures
            r.1@.len() == if n == 0 { 1 } else { n },
    {
        let mut poppers: Vec<SpmcReceiver> = Vec::new();
        poppers.push(self.receiver);
        let mut i: usize = 1;
        while i < n
            invariant
                1 <= i,
                i <= n || (n == 0 && i == 1),
                poppers@.len() == i,
            decreases n - i,
        {
            let tmp = poppers[0];
            poppers.push(tmp);
            i = i + 1;
        }
        (self.sender, poppers)
    }
}

impl<T> SPMCBDistributorPusher<T> for SpmcSender {
    /// A full queue gives the batch back as `Full`.
    fn try_push(&self, queue: &mut SpmcQueue<T>, batch: T) -> (r: Result<(), TryPushError<T>>)
        ensures
            final(queue).wf(),
            final(queue).capacity == old(queue).capacity,
            old(queue).items@.len() < old(queue).capacity ==> r is Ok && final(queue).items@ == old(queue).items@.push(
                batch,
            ),
            old(queue).items@.len() >= old(queue).capacity ==> r == Err::<(), TryPushError<T>>(TryPushError::Full(batch))
                && final(queue).items@ == old(queue).items@,
    {
        if queue.items.len() >= queue.capacity {
            return Err(TryPushError::Full(batch));
        }
        queue.items.push_back(batch);
        Ok(())
    }
}

impl<T> SPMCBDistributorPopper<T> for SpmcReceiver {
    /// An empty queue gives `Empty`.
    fn try_pop(&self, queue: &mut SpmcQueue<T>) -> (r: Result<T, TryPopError>)
        ensures
            final(queue).wf(),
            final(queue).capacity == old(queue).capacity,
            old(queue).items@.len() == 0 ==> r == Err::<T, TryPopError>(TryPopError::Empty) && final(queue).items@
                == old(queue).items@,
            old(queue).items@.len() > 0 ==> r == Ok::<T, TryPopError>(old(queue).items@[0]) && final(queue).items@
                == old(queue).items@.drop_first(),
    {
        match queue.items.pop_front() {
            Some(b) => Ok(b),
            None => Err(TryPopError::Empty),
        }
    }
}

} // verus!
