//! The registry of per-producer queues that a consumer drains.
//!
//! Each producer thread owns one single-producer/single-consumer queue of
//! groups of sixteen indexes; the registry lists those queues. Here the
//! registry is a value of its own, passed to the operations that use it.

use vstd::prelude::*;
use arrayvec::ArrayVec;
use crate::capvec::{
    index_cache_items, index_cache_len, index_cache_push, queue_list_get, queue_list_insert, queue_list_items,
    queue_list_len, queue_list_new, queue_list_push, queue_list_remove,
};
use crate::mpsc::simd_type::SimdUsize16;
use crate::spsc::{spsc_capacity, spsc_len, spsc_new, spsc_try_pop, GroupRing};

verus! {

/// Most queues a registry holds.
pub const MAX_QUEUES: usize = 4096;

/// Capacity of the consumer's cache of indexes.
pub const CACHE_CAPACITY: usize = 1024;

/// The indexes of a sequence of groups, group after group.
pub open spec fn flatten(gs: Seq<SimdUsize16>) -> Seq<usize>
    decreases gs.len(),
{
    if gs.len() == 0 {
        Seq::empty()
    } else {
        flatten(gs.drop_last()) + gs.last()@
    }
}

/// One producer's queue of groups.
pub struct SpscQueue {
    pub id: usize,
    pub capacity: usize,
    pub items: GroupRing,
}

impl SpscQueue {
    /// The number of groups the queue holds.
    pub fn len(&self) -> (n: usize)
        ensures
            n == self.items@.len(),
    {
        spsc_len(&self.items)
    }
}

/// The queues that producers registered, in registration order.
pub struct ConsumerRegistry {
    pub list: Box<ArrayVec<SpscQueue, 4096>>,
    /// Capacity, in groups, of each queue.
    pub single_spsc_len: usize,
    /// The id the next queue gets.
    pub next_id: usize,
}

/// How many groups the consumer takes from a queue holding `q` when its cache
/// holds `cache` indexes: as many as fit, at most all.
pub open spec fn take_count(q: Seq<SimdUsize16>, cache: Seq<usize>) -> nat {
    let room = ((CACHE_CAPACITY - cache.len()) / 16) as nat;
    if q.len() < room {
        q.len()
    } else {
        room
    }
}

/// The cache after the consumer drained the first `i` queues of `qs`.
pub open spec fn drained_cache(qs: Seq<Seq<SimdUsize16>>, cache: Seq<usize>, i: int) -> Seq<usize>
    decreases i,
{
    if i <= 0 {
        cache
    } else {
        let before = drained_cache(qs, cache, i - 1);
        before + flatten(qs[i - 1].take(take_count(qs[i - 1], before) as int))
    }
}

/// The queues `qs` after the consumer drained them into a cache that held
/// `cache`: each queue without the groups taken from its front.
pub open spec fn drained_queues(qs: Seq<Seq<SimdUsize16>>, cache: Seq<usize>) -> Seq<Seq<SimdUsize16>> {
    Seq::new(qs.len(), |i: int| qs[i].skip(take_count(qs[i], drained_cache(qs, cache, i)) as int))
}

impl ConsumerRegistry {
    /// The registered queues, in registration order.
    pub open spec fn entries(&self) -> Seq<SpscQueue> {
        queue_list_items(*self.list)
    }

    /// The registry `other` has the same queues registered as `self`, under
    /// the same ids and with the same capacity; only their contents may differ.
    pub open spec fn same_queues(&self, other: &ConsumerRegistry) -> bool {
        &&& self.ids() == other.ids()
        &&& self.entries().len() == other.entries().len()
        &&& self.single_spsc_len == other.single_spsc_len
        &&& self.next_id == other.next_id
    }

    /// The contents of the queues, in registration order.
    pub open spec fn queues(&self) -> Seq<Seq<SimdUsize16>> {
        Seq::new(self.entries().len(), |i: int| self.entries()[i].items@)
    }

    /// The ids of the queues, in registration order.
    pub open spec fn ids(&self) -> Seq<usize> {
        Seq::new(self.entries().len(), |i: int| self.entries()[i].id)
    }

    /// The registry holds at most `MAX_QUEUES` queues, each of the common
    /// capacity (one whose groups can be allocated), with distinct ids below
    /// the next one.
    pub open spec fn wf(&self) -> bool {
        &&& self.entries().len() <= MAX_QUEUES
        &&& self.single_spsc_len as int * 128 <= isize::MAX
        &&& forall|i: int|
            0 <= i < self.entries().len() ==> {
                &&& (#[trigger] self.entries()[i]).capacity == self.single_spsc_len
                &&& spsc_capacity(self.entries()[i].items) == self.entries()[i].capacity
                &&& self.entries()[i].items@.len() <= self.entries()[i].capacity
                &&& self.entries()[i].id < self.next_id
            }
        &&& forall|i: int, j: int|
            0 <= i < j < self.entries().len() ==> #[trigger] self.entries()[i].id != #[trigger] self.entries()[j].id
    }

    /// An empty registry whose queues will hold `single_spsc_len` groups.
    pub fn new(single_spsc_len: usize) -> (r: Self)
        requires
            single_spsc_len as int * 128 <= isize::MAX,
        ensures
            r.wf(),
            r.entries().len() == 0,
            r.single_spsc_len == single_spsc_len,
            r.next_id == 1,
    {
        ConsumerRegistry { list: Box::new(queue_list_new()), single_spsc_len, next_id: 1 }
    }

    /// Registers a new, empty queue and returns its id.
    pub fn push(&mut self) -> (id: usize)
        requires
            old(self).wf(),
            old(self).entries().len() < MAX_QUEUES,
            old(self).next_id < usize::MAX,
            old(self).single_spsc_len > 0,
        ensures
            final(self).wf(),
            final(self).single_spsc_len == old(self).single_spsc_len,
            final(self).next_id == old(self).next_id + 1,
            id == old(self).next_id,
            final(self).entries().len() == old(self).entries().len() + 1,
            final(self).entries().last().id == id,
            final(self).entries().last().items@.len() == 0,
            final(self).queues() == old(self).queues().push(Seq::empty()),
            forall|i: int| 0 <= i < old(self).entries().len() ==> final(self).entries()[i] == old(self).entries()[i],
    {
        let id = self.next_id;
        queue_list_push(&mut *self.list, SpscQueue { id, capacity: self.single_spsc_len, items: spsc_new(self.single_spsc_len) });
        self.next_id = self.next_id + 1;
        proof {
            assert(self.queues() =~= old(self).queues().push(Seq::empty()));
        }
        id
    }

    /// The position of the queue with id `id`, if any.
    pub fn find(&self, id: usize) -> (r: Option<usize>)
        requires
            self.wf(),
        ensures
            match r {
                Some(i) => i < self.entries().len() && self.entries()[i as int].id == id,
                None => forall|i: int| 0 <= i < self.entries().len() ==> self.entries()[i].id != id,
            },
    {
        let mut i: usize = 0;
        while i < queue_list_len(&*self.list)
            invariant
                i <= self.entries().len(),
                forall|j: int| 0 <= j < i ==> self.entries()[j].id != id,
            decreases self.entries().len() - i,
        {
            if queue_list_get(&*self.list, i).id == id {
                return Some(i);
            }
            i = i + 1;
        }
        None
    }

    /// Unregisters the queue with id `id` (a producer thread went away); what
    /// it still holds is dropped. Exactly one registered queue must have that
    /// id: otherwise the removal check fails.
    pub fn remove(&mut self, id: usize)
        requires
            old(self).wf(),
            old(self).ids().contains(id),
        ensures
            final(self).wf(),
            final(self).single_spsc_len == old(self).single_spsc_len,
            final(self).next_id == old(self).next_id,
            exists|k: int|
                0 <= k < old(self).entries().len() && old(self).entries()[k].id == id
                    && final(self).entries() == old(self).entries().remove(k),
            !final(self).ids().contains(id),
    {
        let ghost k0 = choose|k: int| 0 <= k < old(self).entries().len() && old(self).ids()[k] == id;
        assert(old(self).entries()[k0].id == id);
        match self.find(id) {
            Some(k) => {
                let _dropped = queue_list_remove(&mut *self.list, k);
                proof {
                    assert forall|i: int, j: int|
                        0 <= i < j < self.entries().len() implies #[trigger] self.entries()[i].id
                        != #[trigger] self.entries()[j].id by {
                        if i >= k {
                            assert(self.entries()[i] == old(self).entries()[i + 1]);
                        }
                        if j >= k {
                            assert(self.entries()[j] == old(self).entries()[j + 1]);
                        }
                    }
                    assert forall|i: int| 0 <= i < self.entries().len() implies self.entries()[i].id != id by {
                        if i >= k {
                            assert(self.entries()[i] == old(self).entries()[i + 1]);
                        } else {
                            assert(self.entries()[i] == old(self).entries()[i]);
                        }
                    }
                    assert(!self.ids().contains(id)) by {
                        if self.ids().contains(id) {
                            let w = choose|w: int| 0 <= w < self.ids().len() && self.ids()[w] == id;
                            assert(self.entries()[w].id == id);
                        }
                    }
                }
            },
            None => {
                assert(false);
            },
        }
    }
}

/// Appends the sixteen indexes of a group to the cache.
fn push_group(v: &mut ArrayVec<usize, 1024>, g: SimdUsize16)
    requires
        index_cache_items(*old(v)).len() + 16 <= CACHE_CAPACITY,
    ensures
        index_cache_items(*final(v)) == index_cache_items(*old(v)) + g@,
{
    let mut j: usize = 0;
    while j < 16
        invariant
            j <= 16,
            index_cache_items(*old(v)).len() + 16 <= CACHE_CAPACITY,
            index_cache_items(*v) == index_cache_items(*old(v)) + g@.take(j as int),
        decreases 16 - j,
    {
        index_cache_push(v, g[j]);
        proof {
            assert(g@.take(j + 1) =~= g@.take(j as int).push(g@[j as int]));
        }
        j = j + 1;
    }
    proof {
        assert(g@.take(16) =~= g@);
    }
}

/// The cache never holds more indexes than it can.
pub proof fn lemma_drained_cache_bound(qs: Seq<Seq<SimdUsize16>>, cache: Seq<usize>, i: int)
    requires
        cache.len() <= CACHE_CAPACITY,
        0 <= i <= qs.len(),
    ensures
        drained_cache(qs, cache, i).len() <= CACHE_CAPACITY,
    decreases i,
{
    if i > 0 {
        lemma_drained_cache_bound(qs, cache, i - 1);
        let before = drained_cache(qs, cache, i - 1);
        let t = take_count(qs[i - 1], before) as int;
        lemma_flatten_len(qs[i - 1].take(t));
        assert(t * 16 <= CACHE_CAPACITY - before.len()) by (nonlinear_arith)
            requires
                t <= (CACHE_CAPACITY - before.len()) / 16,
                before.len() <= CACHE_CAPACITY,
        ;
    }
}

/// The indexes held in queues `qs`, queue after queue.
pub open spec fn all_queued(qs: Seq<Seq<SimdUsize16>>) -> Seq<usize>
    decreases qs.len(),
{
    if qs.len() == 0 {
        Seq::empty()
    } else {
        all_queued(qs.drop_last()) + flatten(qs.last())
    }
}

/// Flattening two sequences of groups one after the other flattens each.
pub proof fn lemma_flatten_add(a: Seq<SimdUsize16>, b: Seq<SimdUsize16>)
    ensures
        flatten(a + b) == flatten(a) + flatten(b),
    decreases b.len(),
{
    if b.len() == 0 {
        assert(a + b =~= a);
        assert(flatten(a) + flatten(b) =~= flatten(a));
    } else {
        lemma_flatten_add(a, b.drop_last());
        assert((a + b).drop_last() =~= a + b.drop_last());
        assert((a + b).last() == b.last());
        assert(flatten(a) + flatten(b) =~= flatten(a) + flatten(b.drop_last()) + b.last()@);
    }
}

/// Refilling the cache loses no index and invents none: after the consumer
/// drained the first `i` queues, its cache and those queues hold, together,
/// the indexes that the cache and the same queues held before.
pub proof fn law_drain_conserves(qs: Seq<Seq<SimdUsize16>>, cache: Seq<usize>, i: int)
    requires
        0 <= i <= qs.len(),
    ensures
        (drained_cache(qs, cache, i) + all_queued(drained_queues(qs, cache).take(i))).to_multiset()
            == (cache + all_queued(qs.take(i))).to_multiset(),
    decreases i,
{
    broadcast use vstd::seq_lib::lemma_multiset_commutative;
    if i == 0 {
        assert(drained_queues(qs, cache).take(0) =~= Seq::<Seq<SimdUsize16>>::empty());
        assert(qs.take(0) =~= Seq::<Seq<SimdUsize16>>::empty());
    } else {
        law_drain_conserves(qs, cache, i - 1);
        let before = drained_cache(qs, cache, i - 1);
        let q = qs[i - 1];
        let t = take_count(q, before) as int;
        let dq = drained_queues(qs, cache);
        assert(dq.take(i).drop_last() =~= dq.take(i - 1));
        assert(dq.take(i).last() == q.skip(t));
        assert(qs.take(i).drop_last() =~= qs.take(i - 1));
        assert(q.take(t) + q.skip(t) =~= q);
        lemma_flatten_add(q.take(t), q.skip(t));
        let lhs_prev = before + all_queued(dq.take(i - 1));
        let rhs_prev = cache + all_queued(qs.take(i - 1));
        assert(drained_cache(qs, cache, i) + all_queued(dq.take(i)) =~= before + flatten(q.take(t)) + (
        all_queued(dq.take(i - 1)) + flatten(q.skip(t))));
        assert(cache + all_queued(qs.take(i)) =~= rhs_prev + flatten(q));
        assert((drained_cache(qs, cache, i) + all_queued(dq.take(i))).to_multiset() =~= lhs_prev.to_multiset().add(
            flatten(q).to_multiset(),
        ));
    }
}

/// The indexes of two runs of queues, one after the other.
pub proof fn lemma_all_queued_add(a: Seq<Seq<SimdUsize16>>, b: Seq<Seq<SimdUsize16>>)
    ensures
        all_queued(a + b) == all_queued(a) + all_queued(b),
    decreases b.len(),
{
    if b.len() == 0 {
        assert(a + b =~= a);
        assert(all_queued(a) + all_queued(b) =~= all_queued(a));
    } else {
        lemma_all_queued_add(a, b.drop_last());
        assert((a + b).drop_last() =~= a + b.drop_last());
        assert((a + b).last() == b.last());
        assert(all_queued(a) + all_queued(b) =~= all_queued(a) + all_queued(b.drop_last()) + flatten(b.last()));
    }
}

/// The indexes of queues `qs` split at queue `k`: those before it, its own,
/// those after it.
pub proof fn lemma_all_queued_split(qs: Seq<Seq<SimdUsize16>>, k: int)
    requires
        0 <= k < qs.len(),
    ensures
        all_queued(qs) == all_queued(qs.take(k)) + flatten(qs[k]) + all_queued(qs.skip(k + 1)),
{
    assert(qs =~= qs.take(k) + seq![qs[k]] + qs.skip(k + 1));
    lemma_all_queued_add(qs.take(k) + seq![qs[k]], qs.skip(k + 1));
    lemma_all_queued_add(qs.take(k), seq![qs[k]]);
    assert(seq![qs[k]].drop_last() =~= Seq::<Seq<SimdUsize16>>::empty());
    assert(all_queued(Seq::<Seq<SimdUsize16>>::empty()) == Seq::<usize>::empty());
    assert(Seq::<usize>::empty() + flatten(qs[k]) =~= flatten(qs[k]));
    assert(all_queued(seq![qs[k]]) =~= flatten(qs[k]));
}

/// Queues that a consumer with an empty cache drains into nothing hold
/// nothing.
pub proof fn lemma_drained_nothing(qs: Seq<Seq<SimdUsize16>>, i: int)
    requires
        0 <= i <= qs.len(),
        drained_cache(qs, Seq::empty(), i).len() == 0,
    ensures
        all_queued(qs.take(i)).len() == 0,
    decreases i,
{
    if i > 0 {
        let before = drained_cache(qs, Seq::empty(), i - 1);
        let q = qs[i - 1];
        lemma_flatten_len(q.take(take_count(q, before) as int));
        lemma_drained_nothing(qs, i - 1);
        assert(qs.take(i).drop_last() =~= qs.take(i - 1));
        assert(q.len() == 0);
        assert(flatten(q) =~= Seq::<usize>::empty());
    } else {
        assert(qs.take(0) =~= Seq::<Seq<SimdUsize16>>::empty());
    }
}

/// A sequence of groups holds sixteen indexes per group.
pub proof fn lemma_flatten_len(gs: Seq<SimdUsize16>)
    ensures
        flatten(gs).len() == 16 * gs.len(),
    decreases gs.len(),
{
    if gs.len() > 0 {
        lemma_flatten_len(gs.drop_last());
        assert(gs.last()@.len() == 16);
    }
}

/// Moves groups from the registry's queues into the consumer's cache
/// (`pop_all`): queue after queue, as many whole groups from the front as
/// still fit in the cache.
pub fn pop_all(registry: &mut ConsumerRegistry, v: &mut ArrayVec<usize, 1024>)
    requires
        old(registry).wf(),
    ensures
        final(registry).wf(),
        final(registry).single_spsc_len == old(registry).single_spsc_len,
        final(registry).next_id == old(registry).next_id,
        final(registry).ids() == old(registry).ids(),
        final(registry).entries().len() == old(registry).entries().len(),
        index_cache_items(*final(v)) == drained_cache(
            old(registry).queues(),
            index_cache_items(*old(v)),
            old(registry).entries().len() as int,
        ),
        final(registry).queues() == drained_queues(old(registry).queues(), index_cache_items(*old(v))),
        forall|i: int|
            0 <= i < old(registry).entries().len() ==> #[trigger] final(registry).queues()[i]
                == old(registry).queues()[i].skip(
                take_count(
                    old(registry).queues()[i],
                    drained_cache(old(registry).queues(), index_cache_items(*old(v)), i),
                ) as int,
            ),
{
    let ghost qs = registry.queues();
    let ghost cache0 = index_cache_items(*v);
    let ghost ids0 = registry.ids();
    let ghost list0 = registry.entries();
    let _ = index_cache_len(v);
    let mut rest: Box<ArrayVec<SpscQueue, 4096>> = Box::new(queue_list_new());
    std::mem::swap(&mut rest, &mut registry.list);
    let n = queue_list_len(&*rest);
    let mut done: Box<ArrayVec<SpscQueue, 4096>> = Box::new(queue_list_new());
    let mut i: usize = 0;
    while i < n
        invariant
            old(registry).wf(),
            list0 == old(registry).entries(),
            qs == old(registry).queues(),
            cache0 == index_cache_items(*old(v)),
            n == list0.len(),
            cache0.len() <= CACHE_CAPACITY,
            i <= n,
            queue_list_items(*rest) == list0.subrange(i as int, n as int),
            queue_list_items(*done).len() == i,
            registry.single_spsc_len == old(registry).single_spsc_len,
            registry.next_id == old(registry).next_id,
            index_cache_items(*v) == drained_cache(qs, cache0, i as int),
            forall|j: int|
                0 <= j < i ==> {
                    &&& (#[trigger] queue_list_items(*done)[j]).id == list0[j].id
                    &&& queue_list_items(*done)[j].capacity == list0[j].capacity
                    &&& spsc_capacity(queue_list_items(*done)[j].items) == list0[j].capacity
                    &&& queue_list_items(*done)[j].items@ == qs[j].skip(
                        take_count(qs[j], drained_cache(qs, cache0, j)) as int,
                    )
                },
        decreases n - i,
    {
        let mut q = queue_list_remove(&mut *rest, 0);
        assert(q == list0[i as int]);
        assert(q.items@ == qs[i as int]);
        let ghost before = index_cache_items(*v);
        proof {
            lemma_drained_cache_bound(qs, cache0, i as int);
        }
        let remaining = (CACHE_CAPACITY - index_cache_len(v)) / 16;
        let avail = spsc_len(&q.items);
        let count = if avail < remaining { avail } else { remaining };
        assert(count == take_count(qs[i as int], before));
        let mut t: usize = 0;
        while t < count
            invariant
                t <= count,
                count <= remaining,
                remaining == (CACHE_CAPACITY - before.len()) / 16,
                before.len() <= CACHE_CAPACITY,
                count <= qs[i as int].len(),
                0 <= i < n,
                qs.len() == n,
                q.id == list0[i as int].id,
                q.capacity == list0[i as int].capacity,
                spsc_capacity(q.items) == list0[i as int].capacity,
                q.items@ == qs[i as int].skip(t as int),
                index_cache_items(*v) == before + flatten(qs[i as int].take(t as int)),
            decreases count - t,
        {
            let g = spsc_try_pop(&mut q.items).unwrap();
            proof {
                lemma_flatten_len(qs[i as int].take(t as int));
                assert(t * 16 + 16 <= CACHE_CAPACITY - before.len()) by (nonlinear_arith)
                    requires
                        t < remaining,
                        remaining == (CACHE_CAPACITY - before.len()) / 16,
                        before.len() <= CACHE_CAPACITY,
                ;
                assert(g == qs[i as int][t as int]);
                assert(qs[i as int].take(t + 1).drop_last() =~= qs[i as int].take(t as int));
                assert(qs[i as int].skip(t + 1) =~= qs[i as int].skip(t as int).subrange(
                    1,
                    qs[i as int].skip(t as int).len() as int,
                ));
            }
            push_group(v, g);
            t = t + 1;
        }
        let ghost done_before = queue_list_items(*done);
        queue_list_push(&mut *done, q);
        proof {
            assert forall|j: int| 0 <= j < i + 1 implies {
                &&& (#[trigger] queue_list_items(*done)[j]).id == list0[j].id
                &&& queue_list_items(*done)[j].capacity == list0[j].capacity
                &&& spsc_capacity(queue_list_items(*done)[j].items) == list0[j].capacity
                &&& queue_list_items(*done)[j].items@ == qs[j].skip(take_count(qs[j], drained_cache(qs, cache0, j)) as int)
            } by {
                if j < i {
                    assert(queue_list_items(*done)[j] == done_before[j]);
                }
            }
        }
        i = i + 1;
    }
    let ghost done_items = queue_list_items(*done);
    registry.list = done;
    proof {
        assert forall|j: int| 0 <= j < n implies #[trigger] registry.queues()[j] == qs[j].skip(
            take_count(qs[j], drained_cache(qs, cache0, j)) as int,
        ) by {
            assert(registry.entries()[j] == done_items[j]);
        }
        assert(registry.ids() =~= ids0);
        assert(registry.queues() =~= drained_queues(qs, cache0));
        assert forall|a: int| 0 <= a < registry.entries().len() implies {
            &&& (#[trigger] registry.entries()[a]).capacity == registry.single_spsc_len
            &&& spsc_capacity(registry.entries()[a].items) == registry.entries()[a].capacity
            &&& registry.entries()[a].items@.len() <= registry.entries()[a].capacity
            &&& registry.entries()[a].id < registry.next_id
        } by {
            assert(registry.entries()[a] == done_items[a]);
            assert(list0[a].items@.len() <= list0[a].capacity);
        }
        assert forall|a: int, b: int| 0 <= a < b < registry.entries().len() implies #[trigger] registry.entries()[a].id
            != #[trigger] registry.entries()[b].id by {
            assert(registry.entries()[a] == done_items[a]);
            assert(registry.entries()[b] == done_items[b]);
        }
    }
}

} // verus!
