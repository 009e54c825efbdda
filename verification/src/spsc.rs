//! The single-producer/single-consumer queues of the channel: ring buffers of
//! the `ringbuf` crate.
//!
//! A queue is an opaque type; a name gives the groups it
//! holds, oldest first, and another the capacity it was made with. One
//! wrapper per method the library calls says what the method does to them
//! (as `ringbuf` 0.4 implements it: `try_push` appends unless the buffer is
//! full, `try_pop` takes the oldest item).

use vstd::prelude::*;
use ringbuf::HeapRb;
use crate::mpsc::simd_type::SimdUsize16;

verus! {

/// A ring buffer of groups (`ringbuf::HeapRb`), kept in a private field: the
/// crate's `SharedRb` is bounded by a trait of the crate, so the buffer is
/// reached only through the functions below.
#[verifier::external_body]
pub struct GroupRing {
    rb: Box<HeapRb<SimdUsize16>>,
}

impl View for GroupRing {
    type V = Seq<SimdUsize16>;

    open spec fn view(&self) -> Seq<SimdUsize16> {
        spsc_items(*self)
    }
}

/// The groups a queue holds, oldest first.
pub uninterp spec fn spsc_items(q: GroupRing) -> Seq<SimdUsize16>;

/// The capacity a queue was made with.
pub uninterp spec fn spsc_capacity(q: GroupRing) -> nat;

/// `HeapRb::new`: an empty queue of `capacity` groups. The crate panics on a
/// capacity of zero and when the storage (128 bytes a group) cannot be
/// allocated; `requires` leaves those out.
#[verifier::external_body]
pub(crate) fn spsc_new(capacity: usize) -> (q: GroupRing)
    requires
        0 < capacity,
        capacity as int * 128 <= isize::MAX,
    ensures
        spsc_items(q) == Seq::<SimdUsize16>::empty(),
        spsc_capacity(q) == capacity,
{
    GroupRing { rb: Box::new(HeapRb::new(capacity)) }
}

/// `Observer::occupied_len`: the number of groups held.
#[verifier::external_body]
pub(crate) fn spsc_len(q: &GroupRing) -> (n: usize)
    ensures
        n == spsc_items(*q).len(),
{
    ringbuf::traits::Observer::occupied_len(&*q.rb)
}

/// `Producer::try_push`: appends `g`, or hands it back when the queue is full.
#[verifier::external_body]
pub(crate) fn spsc_try_push(q: &mut GroupRing, g: SimdUsize16) -> (r: Result<(), SimdUsize16>)
    ensures
        spsc_capacity(*final(q)) == spsc_capacity(*old(q)),
        spsc_items(*old(q)).len() < spsc_capacity(*old(q)) ==> r is Ok && spsc_items(*final(q)) == spsc_items(
            *old(q),
        ).push(g),
        spsc_items(*old(q)).len() >= spsc_capacity(*old(q)) ==> (r matches Err(e) && e == g)
            && spsc_items(*final(q)) == spsc_items(*old(q)),
{
    ringbuf::traits::Producer::try_push(&mut *q.rb, g)
}

/// `Consumer::try_pop`: takes out the oldest group, if any.
#[verifier::external_body]
pub(crate) fn spsc_try_pop(q: &mut GroupRing) -> (r: Option<SimdUsize16>)
    ensures
        spsc_capacity(*final(q)) == spsc_capacity(*old(q)),
        spsc_items(*old(q)).len() == 0 ==> r is None && spsc_items(*final(q)) == spsc_items(*old(q)),
        spsc_items(*old(q)).len() > 0 ==> r == Some(spsc_items(*old(q))[0]) && spsc_items(*final(q))
            == spsc_items(*old(q)).drop_first(),
{
    ringbuf::traits::Consumer::try_pop(&mut *q.rb)
}

} // verus!
