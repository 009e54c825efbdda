//! The fixed-capacity vectors of the `arrayvec` crate, as the library uses them.
//!
//! `ArrayVec` is declared to Verus as an opaque type. For each element type
//! and capacity that the library uses, a name gives the items the vector
//! holds, first to last, and one wrapper per `ArrayVec` method says what the
//! method does to them (as `arrayvec` 0.7 implements it: `push` appends and
//! panics when full, `pop` removes the last item, `clear` removes all).

use vstd::prelude::*;
use arrayvec::ArrayVec;
use crate::af_xdp::XdpDescData;
use crate::mpsc::consumer_registry::SpscQueue;

verus! {

#[verifier::external_type_specification]
#[verifier::external_body]
#[verifier::reject_recursive_types(T)]
pub struct ExArrayVec<T, const CAP: usize>(ArrayVec<T, CAP>);

// ---------------------------------------------------------------------------
// ArrayVec<XdpDescData, 32>: the cache of received descriptors
// ---------------------------------------------------------------------------

/// Items of a descriptor cache, first to last.
pub uninterp spec fn desc_cache_items(v: ArrayVec<XdpDescData, 32>) -> Seq<XdpDescData>;

/// `ArrayVec::new`: an empty vector.
#[verifier::external_body]
pub(crate) fn desc_cache_new() -> (v: ArrayVec<XdpDescData, 32>)
    ensures
        desc_cache_items(v) == Seq::<XdpDescData>::empty(),
{
    ArrayVec::new()
}

/// `ArrayVec::push`: appends an item; the vector must not be full.
#[verifier::external_body]
pub(crate) fn desc_cache_push(v: &mut ArrayVec<XdpDescData, 32>, x: XdpDescData)
    requires
        desc_cache_items(*old(v)).len() < 32,
    ensures
        desc_cache_items(*final(v)) == desc_cache_items(*old(v)).push(x),
{
    v.push(x)
}

/// `ArrayVec::pop`: removes and returns the last item, if any.
#[verifier::external_body]
pub(crate) fn desc_cache_pop(v: &mut ArrayVec<XdpDescData, 32>) -> (r: Option<XdpDescData>)
    ensures
        desc_cache_items(*old(v)).len() == 0 ==> r is None && desc_cache_items(*final(v))
            == desc_cache_items(*old(v)),
        desc_cache_items(*old(v)).len() > 0 ==> r == Some(desc_cache_items(*old(v)).last())
            && desc_cache_items(*final(v)) == desc_cache_items(*old(v)).drop_last(),
{
    v.pop()
}


// ---------------------------------------------------------------------------
// ArrayVec<usize, 1024>: the consumer's cache of buffer indexes
// ---------------------------------------------------------------------------

/// Items of a consumer cache, first to last.
pub uninterp spec fn index_cache_items(v: ArrayVec<usize, 1024>) -> Seq<usize>;

/// `ArrayVec::new`: an empty vector.
#[verifier::external_body]
pub(crate) fn index_cache_new() -> (v: ArrayVec<usize, 1024>)
    ensures
        index_cache_items(v) == Seq::<usize>::empty(),
{
    ArrayVec::new()
}

/// `ArrayVec::len`: the number of items.
#[verifier::external_body]
pub(crate) fn index_cache_len(v: &ArrayVec<usize, 1024>) -> (n: usize)
    ensures
        n == index_cache_items(*v).len(),
        n <= 1024,
{
    v.len()
}

/// `ArrayVec::push`: appends an item; the vector must not be full.
#[verifier::external_body]
pub(crate) fn index_cache_push(v: &mut ArrayVec<usize, 1024>, x: usize)
    requires
        index_cache_items(*old(v)).len() < 1024,
    ensures
        index_cache_items(*final(v)) == index_cache_items(*old(v)).push(x),
{
    v.push(x)
}

/// `ArrayVec::pop`: removes and returns the last item, if any.
#[verifier::external_body]
pub(crate) fn index_cache_pop(v: &mut ArrayVec<usize, 1024>) -> (r: Option<usize>)
    ensures
        index_cache_items(*old(v)).len() == 0 ==> r is None && index_cache_items(*final(v))
            == index_cache_items(*old(v)),
        index_cache_items(*old(v)).len() > 0 ==> r == Some(index_cache_items(*old(v)).last())
            && index_cache_items(*final(v)) == index_cache_items(*old(v)).drop_last(),
{
    v.pop()
}

/// `ArrayVec::clear`: removes every item.
#[verifier::external_body]
pub(crate) fn index_cache_clear(v: &mut ArrayVec<usize, 1024>)
    ensures
        index_cache_items(*final(v)) == Seq::<usize>::empty(),
{
    v.clear()
}

/// The items, copied out of the vector (`ArrayVec::as_slice`, then `to_vec`).
#[verifier::external_body]
pub(crate) fn index_cache_to_vec(v: &ArrayVec<usize, 1024>) -> (r: Vec<usize>)
    ensures
        r@ == index_cache_items(*v),
{
    v.as_slice().to_vec()
}

// ---------------------------------------------------------------------------
// ArrayVec<usize, 16>: a producer's local batch
// ---------------------------------------------------------------------------

/// Items of a local batch, first to last.
pub uninterp spec fn batch_items(v: ArrayVec<usize, 16>) -> Seq<usize>;

/// `ArrayVec::new`: an empty vector.
#[verifier::external_body]
pub(crate) fn batch_new() -> (v: ArrayVec<usize, 16>)
    ensures
        batch_items(v) == Seq::<usize>::empty(),
{
    ArrayVec::new()
}

/// `ArrayVec::len`: the number of items.
#[verifier::external_body]
pub(crate) fn batch_len(v: &ArrayVec<usize, 16>) -> (n: usize)
    ensures
        n == batch_items(*v).len(),
        n <= 16,
{
    v.len()
}

/// `ArrayVec::try_push`: appends an item and returns `None`, or, when the
/// vector is full, returns the item (taken out of the `CapacityError`).
#[verifier::external_body]
pub(crate) fn batch_try_push(v: &mut ArrayVec<usize, 16>, x: usize) -> (r: Option<usize>)
    ensures
        r is None <==> batch_items(*old(v)).len() < 16,
        r is None ==> batch_items(*final(v)) == batch_items(*old(v)).push(x),
        r is Some ==> r == Some(x),
        r is Some ==> *final(v) == *old(v),
{
    match v.try_push(x) {
        Ok(()) => None,
        Err(e) => Some(e.element()),
    }
}

/// `ArrayVec::clear`: removes every item.
#[verifier::external_body]
pub(crate) fn batch_clear(v: &mut ArrayVec<usize, 16>)
    ensures
        batch_items(*final(v)) == Seq::<usize>::empty(),
{
    v.clear()
}

/// The items, copied out of the vector (`ArrayVec::as_slice`, then `to_vec`).
#[verifier::external_body]
pub(crate) fn batch_to_vec(v: &ArrayVec<usize, 16>) -> (r: Vec<usize>)
    ensures
        r@ == batch_items(*v),
{
    v.as_slice().to_vec()
}


// ---------------------------------------------------------------------------
// ArrayVec<SpscQueue, 4096>: the registry's list of queues
// ---------------------------------------------------------------------------

/// Items of a list of queues, first to last.
pub uninterp spec fn queue_list_items(v: ArrayVec<SpscQueue, 4096>) -> Seq<SpscQueue>;

/// `ArrayVec::new`: an empty list.
#[verifier::external_body]
pub(crate) fn queue_list_new() -> (v: ArrayVec<SpscQueue, 4096>)
    ensures
        queue_list_items(v) == Seq::<SpscQueue>::empty(),
{
    ArrayVec::new()
}

/// `ArrayVec::len`: the number of queues.
#[verifier::external_body]
pub(crate) fn queue_list_len(v: &ArrayVec<SpscQueue, 4096>) -> (n: usize)
    ensures
        n == queue_list_items(*v).len(),
        n <= 4096,
{
    v.len()
}

/// Indexing: the queue at position `i`.
#[verifier::external_body]
pub(crate) fn queue_list_get(v: &ArrayVec<SpscQueue, 4096>, i: usize) -> (r: &SpscQueue)
    requires
        i < queue_list_items(*v).len(),
    ensures
        *r == queue_list_items(*v)[i as int],
{
    &v[i]
}

/// `ArrayVec::push`: appends a queue; the list must not be full.
#[verifier::external_body]
pub(crate) fn queue_list_push(v: &mut ArrayVec<SpscQueue, 4096>, x: SpscQueue)
    requires
        queue_list_items(*old(v)).len() < 4096,
    ensures
        queue_list_items(*final(v)) == queue_list_items(*old(v)).push(x),
{
    v.push(x)
}

/// `ArrayVec::remove`: takes out the queue at position `i`, shifting the
/// later ones down.
#[verifier::external_body]
pub(crate) fn queue_list_remove(v: &mut ArrayVec<SpscQueue, 4096>, i: usize) -> (r: SpscQueue)
    requires
        i < queue_list_items(*old(v)).len(),
    ensures
        r == queue_list_items(*old(v))[i as int],
        queue_list_items(*final(v)) == queue_list_items(*old(v)).remove(i as int),
{
    v.remove(i)
}

/// `ArrayVec::insert`: puts a queue at position `i`, shifting the later ones
/// up; the list must not be full.
#[verifier::external_body]
pub(crate) fn queue_list_insert(v: &mut ArrayVec<SpscQueue, 4096>, i: usize, x: SpscQueue)
    requires
        i <= queue_list_items(*old(v)).len(),
        queue_list_items(*old(v)).len() < 4096,
    ensures
        queue_list_items(*final(v)) == queue_list_items(*old(v)).insert(i as int, x),
{
    v.insert(i, x)
}

} // verus!
