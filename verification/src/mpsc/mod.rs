//! A multi-producer, single-consumer channel of buffer indexes.
//!
//! Producers collect indexes in a local batch of sixteen and hand only whole
//! groups of sixteen over, each producer through a queue of its own that the
//! registry lists. The consumer keeps a cache of indexes and, when it runs
//! dry, refills it from all the queues.
//!
//! The registry is a value of its own (in a threaded program it sits behind a
//! shared lock); the producer and consumer operations take it as an argument.

pub mod consumer_registry;
pub mod simd_type;

use vstd::prelude::*;
use arrayvec::ArrayVec;
use core::marker::PhantomData;
use crate::capvec::{
    batch_clear, batch_items, batch_len, batch_new, batch_to_vec, batch_try_push, index_cache_items,
    index_cache_len, index_cache_new, index_cache_pop, queue_list_insert, queue_list_len, queue_list_remove,
};
use consumer_registry::{
    all_queued, drained_cache, drained_queues, flatten, law_drain_conserves, lemma_all_queued_split,
    lemma_drained_nothing, pop_all, ConsumerRegistry, MAX_QUEUES,
};
use simd_type::{from_array, SimdUsize16};
use crate::spsc::spsc_try_push;

verus! {

/// A branch hint that the condition is usually true; returns it unchanged.
pub fn likely(b: bool) -> (r: bool)
    ensures
        r == b,
{
    b
}

/// A branch hint that the condition is usually false; returns it unchanged.
pub fn unlikely(b: bool) -> (r: bool)
    ensures
        r == b,
{
    b
}

/// Splits `values` into whole groups of sixteen, in order; a trailing partial
/// group is left out.
pub fn to_simd(values: &[usize]) -> (groups: Vec<SimdUsize16>)
    ensures
        groups@.len() == values@.len() / 16,
        flatten(groups@) == values@.take(16 * (values@.len() / 16) as int),
{
    let mut groups: Vec<SimdUsize16> = Vec::new();
    let mut i: usize = 0;
    let n = values.len() / 16;
    while i < n
        invariant
            n == values@.len() / 16,
            i <= n,
            groups@.len() == i,
            flatten(groups@) == values@.take(16 * i as int),
        decreases n - i,
    {
        let len = values.len();
        assert(16 * i + 16 <= len) by (nonlinear_arith)
            requires
                i < n,
                n == len / 16,
        ;
        let b = 16 * i;
        let g = from_array(
            [
                values[b],
                values[b + 1],
                values[b + 2],
                values[b + 3],
                values[b + 4],
                values[b + 5],
                values[b + 6],
                values[b + 7],
                values[b + 8],
                values[b + 9],
                values[b + 10],
                values[b + 11],
                values[b + 12],
                values[b + 13],
                values[b + 14],
                values[b + 15],
            ],
        );
        let ghost old_groups = groups@;
        groups.push(g);
        proof {
            assert(groups@.drop_last() =~= old_groups);
            assert(g@ =~= values@.subrange(b as int, b + 16));
            assert(values@.take(16 * (i + 1)) =~= values@.take(16 * i) + values@.subrange(
                b as int,
                b + 16,
            ));
        }
        i = i + 1;
    }
    groups
}

/// One `pop` on a consumer whose cache holds `cache`, the registry's queues
/// holding `qs`: the index returned, then the cache and the queues after it.
/// A non-empty cache gives its last index; an empty one is refilled from the
/// queues first, and `None` comes only when nothing could be refilled.
pub open spec fn pop_step(cache: Seq<usize>, qs: Seq<Seq<SimdUsize16>>) -> (Option<usize>, Seq<usize>, Seq<Seq<SimdUsize16>>) {
    if cache.len() > 0 {
        (Some(cache.last()), cache.drop_last(), qs)
    } else {
        let c = drained_cache(qs, cache, qs.len() as int);
        let q = drained_queues(qs, cache);
        if c.len() > 0 {
            (Some(c.last()), c.drop_last(), q)
        } else {
            (None, c, q)
        }
    }
}

/// Up to `n` pops in a row, stopping at the first `None`: the indexes
/// returned, then the cache and the queues after the last pop.
pub open spec fn pop_run(cache: Seq<usize>, qs: Seq<Seq<SimdUsize16>>, n: nat) -> (Seq<usize>, Seq<usize>, Seq<Seq<SimdUsize16>>)
    decreases n,
{
    if n == 0 {
        (Seq::empty(), cache, qs)
    } else {
        let p = pop_run(cache, qs, (n - 1) as nat);
        if p.0.len() < n - 1 {
            p
        } else {
            let st = pop_step(p.1, p.2);
            match st.0 {
                Some(v) => (p.0.push(v), st.1, st.2),
                None => (p.0, st.1, st.2),
            }
        }
    }
}

/// Once a pop came back empty, further pops change nothing.
pub proof fn lemma_pop_run_stops(cache: Seq<usize>, qs: Seq<Seq<SimdUsize16>>, n: nat, m: nat)
    requires
        n <= m,
        pop_run(cache, qs, n).0.len() < n,
    ensures
        pop_run(cache, qs, m) == pop_run(cache, qs, n),
    decreases m,
{
    if m > n {
        lemma_pop_run_stops(cache, qs, n, (m - 1) as nat);
    }
}

/// The consumer end: a cache of indexes refilled from the registry.
pub struct Consumer<T> {
    pub cached: ArrayVec<usize, 1024>,
    pub _marker: PhantomData<T>,
}

impl<T> Consumer<T> {
    /// Items of the cache.
    pub open spec fn cache(&self) -> Seq<usize> {
        index_cache_items(self.cached)
    }

    /// The next index: the last cached one; when the cache is empty it is
    /// refilled from the registry first. `None` when nothing is left.
    pub fn pop(&mut self, registry: &mut ConsumerRegistry) -> (r: Option<usize>)
        requires
            old(registry).wf(),
        ensures
            final(registry).wf(),
            final(registry).same_queues(&*old(registry)),
            ({
                let st = pop_step(old(self).cache(), old(registry).queues());
                &&& r == st.0
                &&& final(self).cache() == st.1
                &&& final(registry).queues() == st.2
            }),
            old(self).cache().len() > 0 ==> *final(registry) == *old(registry),
            r is None ==> old(self).cache().len() == 0 && all_queued(old(registry).queues()).len() == 0,
            ({
                let after = (final(self).cache() + all_queued(final(registry).queues())).to_multiset();
                let before = (old(self).cache() + all_queued(old(registry).queues())).to_multiset();
                match r {
                    Some(v) => after.insert(v) == before,
                    None => after == before,
                }
            }),
    {
        if unlikely(index_cache_len(&self.cached) == 0) {
            proof {
                assert(self.cache() =~= Seq::<usize>::empty());
            }
            self.sync(registry);
        }
        let ghost c1 = self.cache();
        let r = index_cache_pop(&mut self.cached);
        proof {
            broadcast use vstd::seq_lib::lemma_multiset_commutative;
            if c1.len() == 0 {
                let qs = old(registry).queues();
                assert(old(self).cache() =~= Seq::<usize>::empty());
                lemma_drained_nothing(qs, qs.len() as int);
                assert(qs.take(qs.len() as int) =~= qs);
            }
            if c1.len() > 0 {
                assert(c1 =~= self.cache().push(c1.last()));
                assert(c1.to_multiset() =~= self.cache().to_multiset().insert(c1.last())) by {
                    self.cache().to_multiset_ensures();
                }
            }
        }
        r
    }

    /// Number of cached indexes.
    pub fn available_len(&self) -> (n: usize)
        ensures
            n == self.cache().len(),
            n <= 1024,
    {
        index_cache_len(&self.cached)
    }

    /// Moves whole groups from the registry's queues into the cache.
    pub fn sync(&mut self, registry: &mut ConsumerRegistry)
        requires
            old(registry).wf(),
        ensures
            final(registry).wf(),
            final(registry).same_queues(&*old(registry)),
            final(self).cache() == drained_cache(
                old(registry).queues(),
                old(self).cache(),
                old(registry).entries().len() as int,
            ),
            final(registry).queues() == drained_queues(old(registry).queues(), old(self).cache()),
            (final(self).cache() + all_queued(final(registry).queues())).to_multiset() == (old(self).cache()
                + all_queued(old(registry).queues())).to_multiset(),
    {
        pop_all(registry, &mut self.cached);
        proof {
            let qs = old(registry).queues();
            law_drain_conserves(qs, old(self).cache(), qs.len() as int);
            assert(qs.take(qs.len() as int) =~= qs);
            assert(registry.queues().take(qs.len() as int) =~= registry.queues());
        }
    }
}

/// The producer end: a local batch, and the id of the producer's queue once
/// it has one.
pub struct Producer<T> {
    pub inner: Option<usize>,
    pub local_batch: ArrayVec<usize, 16>,
    pub _marker: PhantomData<T>,
}

impl<T> Producer<T> {
    /// Items of the local batch.
    pub open spec fn batch(&self) -> Seq<usize> {
        batch_items(self.local_batch)
    }

    /// A flush can proceed without waiting: a queue can still be registered,
    /// or the producer's queue is registered and has room for a group.
    pub open spec fn can_flush(&self, registry: &ConsumerRegistry) -> bool {
        &&& registry.wf()
        &&& match self.inner {
            None => registry.entries().len() < MAX_QUEUES && registry.next_id < usize::MAX
                && registry.single_spsc_len > 0,
            Some(id) => exists|k: int|
                0 <= k < registry.entries().len() && registry.entries()[k].id == id
                    && registry.entries()[k].items@.len() < registry.entries()[k].capacity,
        }
    }

    /// A flush can proceed without waiting: a whole group needs `can_flush`;
    /// a partial batch is handed nothing, but a producer without a queue
    /// registers one, which needs a free place in the registry.
    pub open spec fn can_hand_over(&self, registry: &ConsumerRegistry) -> bool {
        &&& registry.wf()
        &&& (self.batch().len() == 16 ==> self.can_flush(registry))
        &&& (0 < self.batch().len() < 16 && self.inner is None ==> registry.entries().len() < MAX_QUEUES
            && registry.next_id < usize::MAX && registry.single_spsc_len > 0)
    }

    /// Another handle of the producer, as used on the same thread: it hands
    /// its groups to the same queue, and starts with an empty batch of its
    /// own. (A producer for another thread is made with `new`: it gets a
    /// queue of its own when it first hands a group over.)
    pub fn clone(&self) -> (p: Self)
        ensures
            p.inner == self.inner,
            p.batch().len() == 0,
    {
        Producer { inner: self.inner, local_batch: batch_new(), _marker: PhantomData }
    }

    /// A producer with no queue yet and an empty batch.
    pub fn new() -> (p: Self)
        ensures
            p.inner is None,
            p.batch().len() == 0,
    {
        Producer { inner: None, local_batch: batch_new(), _marker: PhantomData }
    }

    /// Hands the local batch over when it is a whole group: the producer's
    /// queue is registered first if it has none; a partial batch stays where
    /// it is. Nothing is lost or reordered: what the producer has in flight
    /// stays the same.
    pub fn flush(&mut self, registry: &mut ConsumerRegistry)
        requires
            old(registry).wf(),
            registered(*old(self), *old(registry)),
            old(self).can_hand_over(&*old(registry)),
            old(self).batch().len() <= 16,
        ensures
            flush_relation(*old(self), *old(registry), *final(self), *final(registry)),
            final(registry).wf(),
            registered(*final(self), *final(registry)),
            in_flight(*final(self), *final(registry)) == in_flight(*old(self), *old(registry)),
            sent(*final(self), *final(registry)) == sent(*old(self), *old(registry)),
            old(self).batch().len() == 16 ==> room(*final(self), *final(registry)) == room(
                *old(self),
                *old(registry),
            ) - 1 && final(self).batch().len() == 0,
            old(self).batch().len() < 16 ==> room(*final(self), *final(registry)) == room(
                *old(self),
                *old(registry),
            ) && final(self).batch() == old(self).batch(),
    {
        self.hand_over(registry);
        proof {
            lemma_flush_effect(*old(self), *old(registry), *self, *registry);
            lemma_flush_sent(*old(self), *old(registry), *self, *registry);
        }
    }

    /// The work of `flush`.
    fn hand_over(&mut self, registry: &mut ConsumerRegistry)
        requires
            old(registry).wf(),
            registered(*old(self), *old(registry)),
            old(self).can_hand_over(&*old(registry)),
            old(self).batch().len() <= 16,
        ensures
            flush_relation(*old(self), *old(registry), *final(self), *final(registry)),
            final(registry).wf(),
    {
        if unlikely(batch_len(&self.local_batch) == 0) {
            return;
        }
        let k = match self.inner {
            None => {
                let id = registry.push();
                self.inner = Some(id);
                queue_list_len(&*registry.list) - 1
            },
            Some(id) => {
                let ghost w = choose|w: int| 0 <= w < registry.entries().len() && registry.entries()[w].id == id;
                match registry.find(id) {
                    Some(k) => {
                        proof {
                            if k != w {
                                if k < w {
                                    assert(registry.entries()[k as int].id != registry.entries()[w].id);
                                } else {
                                    assert(registry.entries()[w].id != registry.entries()[k as int].id);
                                }
                            }
                        }
                        k
                    },
                    None => {
                        proof {
                            assert(registry.entries()[w].id == id);
                        }
                        return;
                    },
                }
            },
        };
        let ghost mid = *registry;
        let batch = batch_to_vec(&self.local_batch);
        let groups = to_simd(batch.as_slice());
        if groups.len() > 0 {
            let val = groups[0];
            proof {
                assert(groups@.take(1).drop_last() =~= Seq::<SimdUsize16>::empty());
                assert(groups@.take(1) =~= seq![val]);
                assert(flatten(seq![val]) == flatten(Seq::<SimdUsize16>::empty()) + val@);
                assert(batch@.take(16) =~= batch@);
                lemma_flatten_prefix(groups@, 1);
            }
            let mut q = queue_list_remove(&mut *registry.list, k);
            let _ = spsc_try_push(&mut q.items, val);
            queue_list_insert(&mut *registry.list, k, q);
            batch_clear(&mut self.local_batch);
            proof {
                assert forall|j: int| 0 <= j < registry.entries().len() && j != k implies registry.entries()[j]
                    == mid.entries()[j] by {}
                assert(registry.entries()[k as int].id == mid.entries()[k as int].id);
                assert forall|a: int, b: int| 0 <= a < b < registry.entries().len() implies #[trigger] registry.entries()[a].id
                    != #[trigger] registry.entries()[b].id by {
                    assert(registry.entries()[a].id == mid.entries()[a].id);
                    assert(registry.entries()[b].id == mid.entries()[b].id);
                }
                assert(registry.queues() =~= mid.queues().update(k as int, mid.queues()[k as int].push(val)));
                assert(registry.entries()[k as int].items@.drop_last() =~= mid.entries()[k as int].items@);
                if old(self).inner is None {
                    assert(mid.entries()[k as int].items@ =~= Seq::<SimdUsize16>::empty());
                }
                assert(flush_relation_at(*old(self), *old(registry), *self, *registry, k as int));
            }
        } else {
            proof {
                assert(registry.queues() =~= mid.queues());
                assert(batch@.len() < 16);
                assert(self.local_batch == old(self).local_batch);
                assert(self.inner is Some);
                assert(registry.entries()[k as int].id == self.inner->0);
                assert(registry.single_spsc_len == old(registry).single_spsc_len);
                assert(old(self).inner is Some ==> old(self).inner == self.inner && registry.entries().len() == old(registry).entries().len()
                    && registry.next_id == old(registry).next_id);
                assert(old(self).inner is None ==> self.inner == Some(old(registry).next_id) && k == old(registry).entries().len()
                    && registry.entries().len() == old(registry).entries().len() + 1 && registry.next_id == old(registry).next_id + 1);
                if old(self).inner is None {
                    assert(registry.entries()[k as int].items@ =~= Seq::<SimdUsize16>::empty());
                }
                assert(flush_relation_at(*old(self), *old(registry), *self, *registry, k as int));
            }
        }
    }

    /// Adds an index to the local batch; a full batch is handed over first.
    pub fn push(&mut self, registry: &mut ConsumerRegistry, elem: usize)
        requires
            old(registry).wf(),
            registered(*old(self), *old(registry)),
            old(self).batch().len() == 16 ==> old(self).can_flush(&*old(registry)),
            old(self).batch().len() <= 16,
        ensures
            final(registry).wf(),
            final(self).batch().len() <= 16,
            final(self).batch().len() > 0,
            registered(*final(self), *final(registry)),
            in_flight(*final(self), *final(registry)) == in_flight(*old(self), *old(registry)).push(elem),
            sent(*final(self), *final(registry)) == sent(*old(self), *old(registry)).insert(elem),
            old(self).batch().len() < 16 ==> final(self).batch() == old(self).batch().push(elem)
                && *final(registry) == *old(registry) && final(self).inner == old(self).inner,
            old(self).batch().len() == 16 ==> room(*final(self), *final(registry)) == room(
                *old(self),
                *old(registry),
            ) - 1,
            old(self).batch().len() == 16 ==> exists|p: Producer<T>|
                flush_relation(*old(self), *old(registry), p, *final(registry))
                    && final(self).inner == p.inner && final(self).batch() == seq![elem],
    {
        match batch_try_push(&mut self.local_batch, elem) {
            None => {
                proof {
                    assert(in_flight(*self, *registry) =~= in_flight(*old(self), *old(registry)).push(elem));
                    assert(all_queued(registry.queues()) + self.batch() =~= (all_queued(registry.queues())
                        + old(self).batch()).push(elem));
                    (all_queued(registry.queues()) + old(self).batch()).to_multiset_ensures();
                }
            },
            Some(e) => {
                let ghost before = *self;
                self.flush(registry);
                let ghost flushed = *self;
                match batch_try_push(&mut self.local_batch, e) {
                    None => {
                        proof {
                            assert(batch_items(flushed.local_batch).len() == 0);
                            assert(self.batch() =~= seq![elem]);
                            assert(flush_relation(before, *old(registry), flushed, *registry));
                            assert(flushed.inner == self.inner);
                            assert(in_flight(*self, *registry) =~= in_flight(flushed, *registry).push(elem));
                            assert(all_queued(registry.queues()) + self.batch() =~= (all_queued(registry.queues())
                                + flushed.batch()).push(elem));
                            (all_queued(registry.queues()) + flushed.batch()).to_multiset_ensures();
                        }
                    },
                    Some(_) => {
                        assert(false);
                    },
                }
            },
        }
    }
}

/// What the queues of `r` and the batch of producer `p` hold together: what
/// has been sent and not yet taken by the consumer.
pub open spec fn sent<T>(p: Producer<T>, r: ConsumerRegistry) -> vstd::multiset::Multiset<usize> {
    (all_queued(r.queues()) + p.batch()).to_multiset()
}

/// What the consumer's cache and the queues of `r` hold together: what the
/// consumer can still pop.
pub open spec fn held<T>(c: Consumer<T>, r: ConsumerRegistry) -> vstd::multiset::Multiset<usize> {
    (c.cache() + all_queued(r.queues())).to_multiset()
}

/// What the channel holds for one producer and the consumer: the consumer's
/// cache, the queues and the producer's batch.
pub open spec fn channel_total<T>(p: Producer<T>, c: Consumer<T>, r: ConsumerRegistry) -> vstd::multiset::Multiset<usize> {
    (c.cache() + all_queued(r.queues()) + p.batch()).to_multiset()
}

/// A step of a run over one producer and the consumer of a channel.
pub enum ChannelEvent {
    /// The producer pushed an index.
    Push(usize),
    /// The producer flushed.
    Flush,
    /// The consumer popped, and got this.
    Pop(Option<usize>),
}

/// What the step `e` from state (`p0`, `c0`, `r0`) to (`p1`, `c1`, `r1`)
/// does, as `Producer::push`, `Producer::flush` and `Consumer::pop` state it.
pub open spec fn channel_step<T>(
    p0: Producer<T>,
    c0: Consumer<T>,
    r0: ConsumerRegistry,
    e: ChannelEvent,
    p1: Producer<T>,
    c1: Consumer<T>,
    r1: ConsumerRegistry,
) -> bool {
    match e {
        ChannelEvent::Push(x) => c1 == c0 && sent(p1, r1) == sent(p0, r0).insert(x),
        ChannelEvent::Flush => c1 == c0 && sent(p1, r1) == sent(p0, r0),
        ChannelEvent::Pop(Some(v)) => p1 == p0 && held(c1, r1).insert(v) == held(c0, r0),
        ChannelEvent::Pop(None) => p1 == p0 && held(c0, r0).len() == 0 && held(c1, r1) == held(c0, r0),
    }
}

/// The indexes pushed in a run.
pub open spec fn pushed(es: Seq<ChannelEvent>) -> vstd::multiset::Multiset<usize>
    decreases es.len(),
{
    if es.len() == 0 {
        vstd::multiset::Multiset::empty()
    } else {
        match es.last() {
            ChannelEvent::Push(x) => pushed(es.drop_last()).insert(x),
            _ => pushed(es.drop_last()),
        }
    }
}

/// The indexes popped in a run.
pub open spec fn popped(es: Seq<ChannelEvent>) -> vstd::multiset::Multiset<usize>
    decreases es.len(),
{
    if es.len() == 0 {
        vstd::multiset::Multiset::empty()
    } else {
        match es.last() {
            ChannelEvent::Pop(Some(v)) => popped(es.drop_last()).insert(v),
            _ => popped(es.drop_last()),
        }
    }
}

/// Nothing a producer sends is lost: along a run of pushes, flushes and pops
/// of one producer and the consumer, what the channel holds plus what was
/// popped stays what it held at the start plus what was pushed. When the run
/// ends with a pop that finds nothing and the producer's batch is empty, the
/// channel holds nothing: a run that starts on an empty channel has then
/// popped exactly what was pushed.
pub proof fn law_nothing_lost<T>(
    ps: Seq<Producer<T>>,
    cs: Seq<Consumer<T>>,
    rs: Seq<ConsumerRegistry>,
    es: Seq<ChannelEvent>,
)
    requires
        ps.len() == es.len() + 1,
        cs.len() == es.len() + 1,
        rs.len() == es.len() + 1,
        forall|k: int| #![trigger es[k]] 0 <= k < es.len() ==> channel_step(
            ps[k],
            cs[k],
            rs[k],
            es[k],
            ps[k + 1],
            cs[k + 1],
            rs[k + 1],
        ),
    ensures
        channel_total(ps.last(), cs.last(), rs.last()).add(popped(es)) == channel_total(ps[0], cs[0], rs[0]).add(
            pushed(es),
        ),
        es.len() > 0 && es.last() == ChannelEvent::Pop(None) && ps.last().batch().len() == 0 ==> channel_total(
            ps.last(),
            cs.last(),
            rs.last(),
        ) == vstd::multiset::Multiset::<usize>::empty(),
        es.len() > 0 && es.last() == ChannelEvent::Pop(None) && ps.last().batch().len() == 0 && channel_total(
            ps[0],
            cs[0],
            rs[0],
        ) == vstd::multiset::Multiset::<usize>::empty() ==> popped(es) == pushed(es),
    decreases es.len(),
{
    broadcast use vstd::seq_lib::lemma_multiset_commutative;
    let n = es.len();
    if n == 0 {
        assert(channel_total(ps[0], cs[0], rs[0]).add(vstd::multiset::Multiset::empty()) =~= channel_total(
            ps[0],
            cs[0],
            rs[0],
        ));
    } else {
        let m = n - 1;
        law_nothing_lost(ps.take(n as int), cs.take(n as int), rs.take(n as int), es.take(m));
        assert forall|k: int| #![trigger es.take(m)[k]] 0 <= k < m implies channel_step(
            ps.take(n as int)[k],
            cs.take(n as int)[k],
            rs.take(n as int)[k],
            es.take(m)[k],
            ps.take(n as int)[k + 1],
            cs.take(n as int)[k + 1],
            rs.take(n as int)[k + 1],
        ) by {
            assert(es.take(m)[k] == es[k]);
        }
        assert(es.take(m) =~= es.drop_last());
        assert(ps.take(n as int).last() == ps[m]);
        assert(cs.take(n as int).last() == cs[m]);
        assert(rs.take(n as int).last() == rs[m]);
        assert(es[m] == es.last());
        let (p0, c0, r0) = (ps[m], cs[m], rs[m]);
        let (p1, c1, r1) = (ps[m + 1], cs[m + 1], rs[m + 1]);
        assert(channel_step(p0, c0, r0, es[m], p1, c1, r1));
        lemma_total_parts(p0, c0, r0);
        lemma_total_parts(p1, c1, r1);
        let before = channel_total(ps[0], cs[0], rs[0]);
        match es[m] {
            ChannelEvent::Push(x) => {
                assert(channel_total(p1, c1, r1) =~= channel_total(p0, c0, r0).insert(x));
                assert(popped(es) == popped(es.drop_last()));
                assert(pushed(es) == pushed(es.drop_last()).insert(x));
                assert(channel_total(p0, c0, r0).add(popped(es.drop_last())) == before.add(pushed(es.drop_last())));
                assert(channel_total(p1, c1, r1).add(popped(es)) =~= channel_total(p0, c0, r0).add(
                    popped(es.drop_last()),
                ).insert(x));
                assert(before.add(pushed(es)) =~= before.add(pushed(es.drop_last())).insert(x));
            },
            ChannelEvent::Flush => {
                assert(channel_total(p1, c1, r1) =~= channel_total(p0, c0, r0));
            },
            ChannelEvent::Pop(Some(v)) => {
                assert(channel_total(p1, c1, r1).insert(v) =~= channel_total(p0, c0, r0));
                assert(popped(es) == popped(es.drop_last()).insert(v));
                assert(pushed(es) == pushed(es.drop_last()));
                assert(channel_total(p0, c0, r0).add(popped(es.drop_last())) == before.add(pushed(es.drop_last())));
                assert(channel_total(p1, c1, r1).add(popped(es)) =~= channel_total(p0, c0, r0).add(
                    popped(es.drop_last()),
                ));
            },
            ChannelEvent::Pop(None) => {
                assert(channel_total(p1, c1, r1) =~= channel_total(p0, c0, r0));
                if p1.batch().len() == 0 {
                    assert(held(c0, r0) =~= vstd::multiset::Multiset::<usize>::empty());
                    assert(p1.batch().to_multiset() =~= vstd::multiset::Multiset::<usize>::empty());
                    assert(channel_total(p1, c1, r1) =~= vstd::multiset::Multiset::<usize>::empty());
                    assert(popped(es) =~= popped(es).add(vstd::multiset::Multiset::<usize>::empty()));
                }
            },
        }
        assert(ps.last() == p1);
        assert(cs.last() == c1);
        assert(rs.last() == r1);
        if channel_total(p1, c1, r1) == vstd::multiset::Multiset::<usize>::empty() && before
            == vstd::multiset::Multiset::<usize>::empty() {
            assert(channel_total(p1, c1, r1).add(popped(es)) =~= popped(es));
            assert(before.add(pushed(es)) =~= pushed(es));
        }
    }
}

/// What the channel holds is what the consumer's cache holds plus what was
/// sent, and what the consumer can pop plus the producer's batch.
proof fn lemma_total_parts<T>(p: Producer<T>, c: Consumer<T>, r: ConsumerRegistry)
    ensures
        channel_total(p, c, r) == c.cache().to_multiset().add(sent(p, r)),
        channel_total(p, c, r) == held(c, r).add(p.batch().to_multiset()),
{
    broadcast use vstd::seq_lib::lemma_multiset_commutative;
    assert(c.cache() + all_queued(r.queues()) + p.batch() =~= c.cache() + (all_queued(r.queues()) + p.batch()));
    assert(channel_total(p, c, r) =~= c.cache().to_multiset().add(sent(p, r)));
}

/// A flush moves indexes from the batch to the queues and loses none.
pub proof fn lemma_flush_sent<T>(p0: Producer<T>, r0: ConsumerRegistry, p1: Producer<T>, r1: ConsumerRegistry)
    requires
        flush_relation(p0, r0, p1, r1),
    ensures
        sent(p1, r1) == sent(p0, r0),
{
    broadcast use vstd::seq_lib::lemma_multiset_commutative;
    if batch_items(p0.local_batch).len() > 0 {
        let k = choose|k: int| #[trigger] flush_relation_at(p0, r0, p1, r1, k);
        assert(flush_relation_at(p0, r0, p1, r1, k));
        let qs0 = r0.queues();
        let qs1 = r1.queues();
        let items1 = r1.entries()[k].items@;
        let before: Seq<SimdUsize16> = if p0.inner is None {
            Seq::empty()
        } else {
            r0.entries()[k].items@
        };
        lemma_all_queued_split(qs1, k);
        assert(qs1[k] == items1);
        let a = all_queued(qs1.take(k));
        let b = all_queued(qs1.skip(k + 1));
        if p0.inner is None {
            assert(qs1.take(k) =~= qs0);
            assert(qs1.skip(k + 1) =~= Seq::<Seq<SimdUsize16>>::empty());
            assert(all_queued(qs1.skip(k + 1)) == Seq::<usize>::empty());
            assert(flatten(before) == Seq::<usize>::empty());
            assert(all_queued(qs0) =~= a + flatten(before) + b);
        } else {
            assert(qs1.take(k) =~= qs0.take(k));
            assert(qs1.skip(k + 1) =~= qs0.skip(k + 1));
            lemma_all_queued_split(qs0, k);
            assert(qs0[k] == before);
        }
        let b0 = batch_items(p0.local_batch);
        if b0.len() == 16 {
            assert(flatten(items1) == flatten(items1.drop_last()) + items1.last()@);
            assert(all_queued(qs1) + batch_items(p1.local_batch) =~= a + flatten(before) + b0 + b);
            assert(sent(p1, r1) =~= sent(p0, r0));
        } else {
            assert(all_queued(qs1) =~= all_queued(qs0));
        }
    }
}

/// The groups of the queue with id `id` in registry `r`; none when no queue
/// has that id.
pub open spec fn queue_with_id(r: ConsumerRegistry, id: usize) -> Seq<SimdUsize16> {
    if exists|k: int| 0 <= k < r.entries().len() && r.entries()[k].id == id {
        r.entries()[choose|k: int| 0 <= k < r.entries().len() && r.entries()[k].id == id].items@
    } else {
        Seq::empty()
    }
}

/// The producer's queue, if it has one, is registered in `r`.
pub open spec fn registered<T>(p: Producer<T>, r: ConsumerRegistry) -> bool {
    match p.inner {
        Some(id) => exists|k: int| 0 <= k < r.entries().len() && r.entries()[k].id == id,
        None => true,
    }
}

/// What producer `p` sent and nobody took yet: the indexes in its queue, in
/// order, then those of its batch.
pub open spec fn in_flight<T>(p: Producer<T>, r: ConsumerRegistry) -> Seq<usize> {
    let queued = match p.inner {
        Some(id) => flatten(queue_with_id(r, id)),
        None => Seq::empty(),
    };
    queued + p.batch()
}

/// How many more groups the producer can hand over before its queue is
/// full: the free places of its queue, or the capacity of a new queue when
/// it has none yet and one can still be registered.
pub open spec fn room<T>(p: Producer<T>, r: ConsumerRegistry) -> int {
    match p.inner {
        Some(id) => r.single_spsc_len - queue_with_id(r, id).len(),
        None => if r.entries().len() < MAX_QUEUES && r.next_id < usize::MAX {
            r.single_spsc_len as int
        } else {
            0
        },
    }
}

/// In a well-formed registry the queue found by id is the one at its position.
pub proof fn lemma_queue_with_id(r: ConsumerRegistry, k: int)
    requires
        r.wf(),
        0 <= k < r.entries().len(),
    ensures
        queue_with_id(r, r.entries()[k].id) == r.entries()[k].items@,
        r.entries()[k].items@.len() <= r.single_spsc_len,
{
    let id = r.entries()[k].id;
    let w = choose|w: int| 0 <= w < r.entries().len() && r.entries()[w].id == id;
    if w != k {
        if w < k {
            assert(r.entries()[w].id != r.entries()[k].id);
        } else {
            assert(r.entries()[k].id != r.entries()[w].id);
        }
    }
}

/// A producer stays registered when only the contents of the queues change.
pub proof fn lemma_registered_same_queues<T>(p: Producer<T>, r0: ConsumerRegistry, r1: ConsumerRegistry)
    requires
        registered(p, r0),
        r1.same_queues(&r0),
    ensures
        registered(p, r1),
        room(p, r1) == room(p, r0) || p.inner is Some,
{
    if let Some(id) = p.inner {
        let k = choose|k: int| 0 <= k < r0.entries().len() && r0.entries()[k].id == id;
        assert(r0.ids()[k] == id);
        assert(r1.ids()[k] == id);
        assert(r1.entries()[k].id == id);
    }
}

/// A registered producer with room can flush.
pub proof fn lemma_room_can_flush<T>(p: Producer<T>, r: ConsumerRegistry)
    requires
        r.wf(),
        registered(p, r),
        room(p, r) > 0,
    ensures
        p.can_flush(&r),
{
    if let Some(id) = p.inner {
        let k = choose|k: int| 0 <= k < r.entries().len() && r.entries()[k].id == id;
        lemma_queue_with_id(r, k);
    }
}

/// A flush hands over nothing but whole groups: what the producer has in
/// flight stays the same, a full batch takes one place of the queue and
/// empties the batch, and a partial batch stays.
pub proof fn lemma_flush_effect<T>(p0: Producer<T>, r0: ConsumerRegistry, p1: Producer<T>, r1: ConsumerRegistry)
    requires
        r0.wf(),
        r1.wf(),
        registered(p0, r0),
        p0.can_hand_over(&r0),
        p0.batch().len() <= 16,
        flush_relation(p0, r0, p1, r1),
    ensures
        registered(p1, r1),
        in_flight(p1, r1) == in_flight(p0, r0),
        p0.batch().len() == 16 ==> room(p1, r1) == room(p0, r0) - 1 && p1.batch().len() == 0,
        p0.batch().len() < 16 ==> room(p1, r1) == room(p0, r0) && p1.batch() == p0.batch(),
{
    if p0.batch().len() > 0 {
        let k = choose|k: int| #[trigger] flush_relation_at(p0, r0, p1, r1, k);
        assert(flush_relation_at(p0, r0, p1, r1, k));
        lemma_queue_with_id(r1, k);
        let before: Seq<SimdUsize16> = if p0.inner is None {
            Seq::empty()
        } else {
            r0.entries()[k].items@
        };
        if p0.inner is Some {
            lemma_queue_with_id(r0, k);
        }
        assert(queue_with_id(r1, p1.inner->0) == r1.entries()[k].items@);
        if p0.batch().len() == 16 {
            let items = r1.entries()[k].items@;
            assert(flatten(items) == flatten(items.drop_last()) + items.last()@);
            assert(in_flight(p1, r1) =~= in_flight(p0, r0));
        } else {
            assert(in_flight(p1, r1) =~= in_flight(p0, r0));
        }
    }
}

/// The relation between the states before (`p0`, `r0`) and after (`p1`,
/// `r1`) a flush: a non-empty batch makes the producer's queue registered;
/// a whole group is appended to that queue and the batch emptied; nothing
/// else changes.
pub open spec fn flush_relation<T>(
    p0: Producer<T>,
    r0: ConsumerRegistry,
    p1: Producer<T>,
    r1: ConsumerRegistry,
) -> bool {
    if batch_items(p0.local_batch).len() == 0 {
        p1 == p0 && r1 == r0
    } else {
        exists|k: int| #[trigger] flush_relation_at(p0, r0, p1, r1, k)
    }
}

/// `flush_relation` for a non-empty batch, where `k` is the position of the
/// producer's queue.
pub open spec fn flush_relation_at<T>(
    p0: Producer<T>,
    r0: ConsumerRegistry,
    p1: Producer<T>,
    r1: ConsumerRegistry,
    k: int,
) -> bool {
    &&& p1.inner is Some
    &&& 0 <= k < r1.entries().len()
    &&& r1.entries()[k].id == p1.inner->0
    &&& r1.single_spsc_len == r0.single_spsc_len
    &&& (p0.inner is Some ==> p0.inner == p1.inner && r1.entries().len() == r0.entries().len()
        && r1.next_id == r0.next_id && r0.entries()[k].id == p0.inner->0)
    &&& (p0.inner is None ==> p1.inner == Some(r0.next_id) && k == r0.entries().len()
        && r1.entries().len() == r0.entries().len() + 1 && r1.next_id == r0.next_id + 1)
    &&& forall|j: int| 0 <= j < r1.entries().len() && j != k ==> r1.entries()[j] == r0.entries()[j]
    &&& {
        let before: Seq<SimdUsize16> = if p0.inner is None {
            Seq::empty()
        } else {
            r0.entries()[k].items@
        };
        if batch_items(p0.local_batch).len() == 16 {
            &&& batch_items(p1.local_batch).len() == 0
            &&& r1.entries()[k].items@.len() == before.len() + 1
            &&& r1.entries()[k].items@.drop_last() == before
            &&& r1.entries()[k].items@.last()@ == batch_items(p0.local_batch)
        } else {
            &&& batch_items(p1.local_batch) == batch_items(p0.local_batch)
            &&& r1.entries()[k].items@ == before
        }
    }
}

/// The groups of a prefix flatten to a prefix of the indexes.
proof fn lemma_flatten_prefix(gs: Seq<SimdUsize16>, n: int)
    requires
        0 <= n <= gs.len(),
    ensures
        flatten(gs.take(n)) == flatten(gs).take(16 * n),
    decreases gs.len(),
{
    consumer_registry::lemma_flatten_len(gs);
    consumer_registry::lemma_flatten_len(gs.take(n));
    if n == gs.len() {
        assert(gs.take(n) =~= gs);
    } else {
        lemma_flatten_prefix(gs.drop_last(), n);
        assert(gs.drop_last().take(n) =~= gs.take(n));
        consumer_registry::lemma_flatten_len(gs.drop_last());
        assert(flatten(gs) == flatten(gs.drop_last()) + gs.last()@);
        assert(flatten(gs).take(16 * n) =~= flatten(gs.drop_last()).take(16 * n));
    }
}

/// A producer and a consumer on a new, empty registry whose queues hold
/// `size` groups each.
pub fn channel<T>(size: usize) -> (r: (Producer<T>, Consumer<T>, ConsumerRegistry))
    requires
        size as int * 128 <= isize::MAX,
    ensures
        r.0.inner is None,
        r.0.batch().len() == 0,
        r.1.cache().len() == 0,
        r.2.wf(),
        r.2.entries().len() == 0,
        r.2.single_spsc_len == size,
        r.2.next_id == 1,
{
    let list = ConsumerRegistry::new(size);
    (Producer::new(), Consumer { cached: index_cache_new(), _marker: PhantomData }, list)
}

} // verus!
