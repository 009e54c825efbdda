//! The user-space side of the AF_XDP single-producer / single-consumer rings.
//!
//! A ring lives in memory shared between two parties (this process and the
//! kernel). That memory holds a free-running producer counter, a free-running
//! consumer counter and an array of `size` entries, `size` a power of two.
//! Each party keeps a handle with cached copies of the counters.
//!
//! `XskShared` holds the shared memory as plain values; `XskRingProd` and
//! `XskRingCons` are the handles of the two parties. Every operation reads and
//! writes the shared memory exactly where the libxdp inline functions do.
//! The ghost fields count, without wrap-around, how many entries were ever
//! published and released, and record every published entry; they are what
//! the contracts speak of.

use vstd::prelude::*;
use vstd::arithmetic::power2::*;
use vstd::arithmetic::div_mod::*;
use vstd::bits::*;

verus! {

/// The counters are `u32` and wrap around modulo 2^32.
pub open spec fn counter_modulus() -> int {
    0x1_0000_0000
}

/// The `u32` value of an unbounded counter.
pub open spec fn wrap32(n: int) -> u32 {
    (n % counter_modulus()) as u32
}

/// Ring sizes are powers of two that fit in a `u32`.
pub open spec fn is_ring_size(size: nat) -> bool {
    exists|k: nat| k < 32 && size == pow2(k)
}

/// Shared memory of one ring.
pub struct XskShared<T> {
    /// Free-running producer counter (`*producer`).
    pub producer: u32,
    /// Free-running consumer counter (`*consumer`).
    pub consumer: u32,
    /// The entries (`ring`), indexed by counter value modulo the size.
    pub ring: Vec<T>,
    /// Number of entries ever published by the producer.
    pub produced: Ghost<nat>,
    /// Number of entries ever released by the consumer.
    pub consumed: Ghost<nat>,
    /// Every entry ever published, in publication order.
    pub log: Ghost<Seq<T>>,
}

impl<T> XskShared<T> {
    pub open spec fn size(&self) -> nat {
        self.ring@.len()
    }

    /// Published entries that the consumer has not released yet.
    pub open spec fn pending(&self) -> Seq<T> {
        self.log@.subrange(self.consumed@ as int, self.produced@ as int)
    }

    pub open spec fn wf(&self) -> bool {
        &&& is_ring_size(self.size())
        &&& self.producer == wrap32(self.produced@ as int)
        &&& self.consumer == wrap32(self.consumed@ as int)
        &&& self.consumed@ <= self.produced@ <= self.consumed@ + self.size()
        &&& self.log@.len() == self.produced@
        &&& forall|i: int|
            self.consumed@ <= i < self.produced@ ==> self.ring@[i % (self.size() as int)]
                == #[trigger] self.log@[i]
    }
}

// ---------------------------------------------------------------------------
// Arithmetic facts about wrapping counters and masked indexes
// ---------------------------------------------------------------------------

/// The difference of two wrapped counters is the difference of the counters,
/// as long as it is below 2^32.
pub proof fn lemma_wrap_sub(a: int, b: int)
    requires
        0 <= b <= a < b + counter_modulus(),
    ensures
        vstd::wrapping::u32_specs::wrapping_sub(wrap32(a), wrap32(b)) == a - b,
{
    let m = counter_modulus();
    lemma_fundamental_div_mod(a, m);
    lemma_fundamental_div_mod(b, m);
    lemma_mod_bound(a, m);
    lemma_mod_bound(b, m);
    let qa = a / m;
    let qb = b / m;
    assert(a - b == m * (qa - qb) + (a % m) - (b % m)) by (nonlinear_arith)
        requires
            a == m * qa + (a % m),
            b == m * qb + (b % m),
    ;
    assert(qa - qb == 0 || qa - qb == 1) by (nonlinear_arith)
        requires
            a - b == m * (qa - qb) + (a % m) - (b % m),
            0 <= a - b < m,
            0 <= a % m < m,
            0 <= b % m < m,
            m > 0,
    ;
}

/// Two counters fewer than 2^32 apart with the same wrapped value are equal.
pub proof fn lemma_wrap_injective(a: int, b: int)
    requires
        0 <= b <= a < b + counter_modulus(),
        wrap32(a) == wrap32(b),
    ensures
        a == b,
{
    lemma_wrap_sub(a, b);
    let x = wrap32(a);
    assert(vstd::wrapping::u32_specs::wrapping_sub(x, x) == 0);
}

/// Adding to a wrapped counter wraps the sum.
pub proof fn lemma_wrap_add(a: int, x: u32)
    requires
        0 <= a,
    ensures
        vstd::wrapping::u32_specs::wrapping_add(wrap32(a), x) == wrap32(a + x),
{
    let m = counter_modulus();
    lemma_mod_bound(a, m);
    lemma_add_mod_noop(a, x as int, m);
    lemma_small_mod(x as nat, m as nat);
    lemma_mod_bound(a + x, m);
    if (a % m) + x >= m {
        lemma_mod_sub_multiples_vanish((a % m) + x, m);
        lemma_small_mod(((a % m) + x - m) as nat, m as nat);
    } else {
        lemma_small_mod(((a % m) + x) as nat, m as nat);
    }
}

/// A ring size divides 2^32 and is at most 2^31.
pub proof fn lemma_ring_size_facts(size: nat)
    requires
        is_ring_size(size),
    ensures
        0 < size <= 0x8000_0000,
        counter_modulus() % (size as int) == 0,
        counter_modulus() == (size as int) * (counter_modulus() / (size as int)),
{
    let k = choose|k: nat| k < 32 && size == pow2(k);
    lemma_pow2_pos(k);
    lemma2_to64();
    lemma2_to64_rest();
    if k < 31 {
        lemma_pow2_strictly_increases(k, 31);
    }
    lemma_pow2_adds(k, (32 - k) as nat);
    assert(pow2(32) == 0x1_0000_0000);
    lemma_pow2_pos((32 - k) as nat);
    let q = pow2((32 - k) as nat) as int;
    assert(counter_modulus() == size * q);
    lemma_mod_multiples_basic(q, size as int);
    assert((q * (size as int)) % (size as int) == 0);
    assert(counter_modulus() == q * (size as int)) by (nonlinear_arith)
        requires counter_modulus() == size * q;
    lemma_div_multiples_vanish(q, size as int);
    assert((size as int) * q / (size as int) == q);
}

/// Two counters fewer than `m` apart that differ fall in different entries of
/// a ring of `m` entries.
pub proof fn lemma_mod_distinct(x: int, a: int, b: int, m: int)
    requires
        0 <= x,
        0 <= a < b,
        b - a < m,
    ensures
        (x + a) % m != (x + b) % m,
{
    lemma_fundamental_div_mod(x + a, m);
    lemma_fundamental_div_mod(x + b, m);
    lemma_mod_bound(x + a, m);
    lemma_mod_bound(x + b, m);
    if (x + a) % m == (x + b) % m {
        let qa = (x + a) / m;
        let qb = (x + b) / m;
        assert(false) by (nonlinear_arith)
            requires
                x + a == m * qa + (x + a) % m,
                x + b == m * qb + (x + b) % m,
                (x + a) % m == (x + b) % m,
                0 < b - a < m,
        ;
    }
}

/// Masking a wrapped counter with `size - 1` picks the entry of that counter.
pub proof fn lemma_ring_index(i: int, size: u32, mask: u32)
    requires
        0 <= i,
        is_ring_size(size as nat),
        mask == size - 1,
    ensures
        (wrap32(i) & mask) as int == i % (size as int),
        (wrap32(i) & mask) < size,
{
    let k = choose|k: nat| k < 32 && size as nat == pow2(k);
    lemma_ring_size_facts(size as nat);
    lemma_u32_low_bits_mask_is_mod(wrap32(i), k);
    assert(low_bits_mask(k) == pow2(k) - 1);
    lemma_mod_bound(i, counter_modulus());
    let q = counter_modulus() / (size as int);
    lemma_mod_mod(i, size as int, q);
    assert((size as int) * q == counter_modulus());
    lemma_mod_bound(i, size as int);
}


// ---------------------------------------------------------------------------
// Shared memory
// ---------------------------------------------------------------------------

impl<T: Copy> XskShared<T> {
    /// Fresh ring memory of `size` entries, each `fill`, with both counters at 0
    /// (what the kernel maps for a new ring).
    pub fn new(size: u32, fill: T) -> (s: Self)
        requires
            is_ring_size(size as nat),
        ensures
            s.wf(),
            s.size() == size,
            s.producer == 0,
            s.consumer == 0,
            s.produced@ == 0,
            s.consumed@ == 0,
            s.pending() == Seq::<T>::empty(),
            forall|i: int| 0 <= i < size ==> s.ring@[i] == fill,
    {
        let mut ring: Vec<T> = Vec::new();
        while ring.len() < size as usize
            invariant
                ring.len() <= size,
                forall|i: int| 0 <= i < ring.len() ==> ring@[i] == fill,
            decreases size - ring.len(),
        {
            ring.push(fill);
        }
        proof {
            lemma_small_mod(0, counter_modulus() as nat);
        }
        XskShared {
            producer: 0,
            consumer: 0,
            ring,
            produced: Ghost(0),
            consumed: Ghost(0),
            log: Ghost(Seq::empty()),
        }
    }
}

// ---------------------------------------------------------------------------
// Producer side
// ---------------------------------------------------------------------------

/// The producer's handle (`struct xsk_ring_prod`).
pub struct XskRingProd {
    pub cached_prod: u32,
    pub cached_cons: u32,
    pub mask: u32,
    pub size: u32,
    /// Unbounded value of `cached_prod`: entries reserved so far.
    pub reserved: Ghost<nat>,
    /// Unbounded value of `cached_cons`: how far the producer may reserve.
    pub limit: Ghost<nat>,
}

impl XskRingProd {
    /// The handle agrees with the shared memory `s`.
    pub open spec fn inv<T>(&self, s: &XskShared<T>) -> bool {
        &&& s.wf()
        &&& self.size as nat == s.size()
        &&& self.mask == self.size - 1
        &&& self.cached_prod == wrap32(self.reserved@ as int)
        &&& self.cached_cons == wrap32(self.limit@ as int)
        &&& s.produced@ <= self.reserved@ <= self.limit@ <= s.consumed@ + self.size
    }

    /// Entries reserved and not yet submitted.
    pub open spec fn outstanding<T>(&self, s: &XskShared<T>) -> nat {
        (self.reserved@ - s.produced@) as nat
    }

    /// Entries the producer may still reserve without looking at the consumer.
    pub open spec fn cached_free(&self) -> nat {
        (self.limit@ - self.reserved@) as nat
    }

    /// A producer handle on `s`: `cached_prod` is the producer counter and
    /// `cached_cons` is the consumer counter plus the size, as libxdp sets up
    /// the fill and the TX ring.
    pub fn attach<T>(s: &XskShared<T>) -> (r: Self)
        requires
            s.wf(),
        ensures
            r.inv(s),
            r.cached_prod == s.producer,
            r.reserved@ == s.produced@,
            r.limit@ == s.consumed@ + s.size(),
    {
        proof {
            lemma_ring_size_facts(s.size());
        }
        let size = s.ring.len() as u32;
        proof {
            lemma_wrap_add(s.consumed@ as int, size);
        }
        XskRingProd {
            cached_prod: s.producer,
            cached_cons: s.consumer.wrapping_add(size),
            mask: size - 1,
            size,
            reserved: Ghost(s.produced@),
            limit: Ghost(s.consumed@ + s.size()),
        }
    }
}

/// Free entries as the producer sees them (`xsk_prod_nb_free`): if the cached
/// count is below `nb`, the consumer counter is read again.
pub fn xsk_prod_nb_free<T>(r: &mut XskRingProd, s: &XskShared<T>, nb: u32) -> (n: u32)
    requires
        old(r).inv(s),
    ensures
        final(r).inv(s),
        final(r).cached_prod == old(r).cached_prod,
        final(r).reserved@ == old(r).reserved@,
        n as nat == final(r).cached_free(),
        old(r).cached_free() >= nb ==> *final(r) == *old(r),
        old(r).cached_free() < nb ==> final(r).limit@ == s.consumed@ + s.size(),
{
    proof {
        lemma_ring_size_facts(s.size());
        lemma_wrap_sub(r.limit@ as int, r.reserved@ as int);
    }
    let free_entries = r.cached_cons.wrapping_sub(r.cached_prod);
    if free_entries >= nb {
        return free_entries;
    }
    proof {
        lemma_wrap_add(s.consumed@ as int, r.size);
    }
    r.cached_cons = s.consumer.wrapping_add(r.size);
    r.limit = Ghost(s.consumed@ + s.size());
    proof {
        lemma_wrap_sub(r.limit@ as int, r.reserved@ as int);
    }
    r.cached_cons.wrapping_sub(r.cached_prod)
}

/// Reserves `nb` entries (`xsk_ring_prod__reserve`). Returns `nb` and sets
/// `*idx` to the first reserved counter value when that many entries are
/// free; otherwise returns 0 and reserves nothing.
pub fn xsk_ring_prod__reserve<T>(r: &mut XskRingProd, s: &XskShared<T>, nb: u32, idx: &mut u32) -> (n: u32)
    requires
        old(r).inv(s),
    ensures
        final(r).inv(s),
        n == 0 || n == nb,
        n == nb <==> (old(r).cached_free() >= nb || s.consumed@ + s.size() - old(r).reserved@ >= nb),
        n == nb ==> *final(idx) == old(r).cached_prod && final(r).reserved@ == old(r).reserved@ + nb,
        n != nb ==> final(r).reserved@ == old(r).reserved@ && *final(idx) == *old(idx),
{
    if xsk_prod_nb_free(r, s, nb) < nb {
        return 0;
    }
    *idx = r.cached_prod;
    proof {
        lemma_wrap_add(r.reserved@ as int, nb);
    }
    r.cached_prod = r.cached_prod.wrapping_add(nb);
    r.reserved = Ghost(r.reserved@ + nb as nat);
    nb
}

/// Writes `val` into the reserved entry of counter value `idx`
/// (through `xsk_ring_prod__fill_addr` / `xsk_ring_prod__tx_desc`).
pub fn xsk_ring_prod__write<T>(r: &XskRingProd, s: &mut XskShared<T>, idx: u32, val: T)
    requires
        r.inv(&*old(s)),
        vstd::wrapping::u32_specs::wrapping_sub(idx, old(s).producer) < r.outstanding(&*old(s)),
    ensures
        r.inv(&*final(s)),
        final(s).producer == old(s).producer,
        final(s).consumer == old(s).consumer,
        final(s).produced@ == old(s).produced@,
        final(s).consumed@ == old(s).consumed@,
        final(s).log@ == old(s).log@,
        final(s).ring@ == old(s).ring@.update(
            (old(s).produced@ + vstd::wrapping::u32_specs::wrapping_sub(idx, old(s).producer))
                % (old(s).size() as int),
            val,
        ),
{
    let ghost size = s.size() as int;
    let ghost off = vstd::wrapping::u32_specs::wrapping_sub(idx, s.producer) as int;
    let ghost pos = s.produced@ + off;
    proof {
        lemma_ring_size_facts(s.size());
        lemma_wrap_sub(pos, s.produced@ as int);
        lemma_ring_index(pos, r.size, r.mask);
        // idx is the wrapped value of pos
        lemma_wrap_add(s.produced@ as int, off as u32);
        lemma_small_mod(off as nat, counter_modulus() as nat);
        assert(wrap32(pos) == idx) by {
            lemma_wrap_sub(pos, s.produced@ as int);
            lemma_mod_bound(pos, counter_modulus());
            lemma_mod_bound(s.produced@ as int, counter_modulus());
        }
    }
    let slot = (idx & r.mask) as usize;
    s.ring.set(slot, val);
    proof {
        assert forall|i: int| s.consumed@ <= i < s.produced@ implies s.ring@[i % size]
            == #[trigger] s.log@[i] by {
            lemma_mod_bound(i, size);
            if i % size == pos % size {
                // pos and i are fewer than size apart and differ
                lemma_fundamental_div_mod(i, size);
                lemma_fundamental_div_mod(pos, size);
                assert(false) by (nonlinear_arith)
                    requires
                        i == size * (i / size) + i % size,
                        pos == size * (pos / size) + pos % size,
                        i % size == pos % size,
                        i < pos,
                        pos - i < size,
                        size > 0,
                ;
            }
        }
    }
}

/// Publishes `nb` reserved entries to the consumer (`xsk_ring_prod__submit`).
pub fn xsk_ring_prod__submit<T: Copy>(r: &XskRingProd, s: &mut XskShared<T>, nb: u32)
    requires
        r.inv(&*old(s)),
        nb <= r.outstanding(&*old(s)),
    ensures
        r.inv(&*final(s)),
        final(s).produced@ == old(s).produced@ + nb,
        final(s).consumed@ == old(s).consumed@,
        final(s).consumer == old(s).consumer,
        final(s).ring@ == old(s).ring@,
        final(s).log@ == old(s).log@ + Seq::new(
            nb as nat,
            |k: int| old(s).ring@[(old(s).produced@ + k) % (old(s).size() as int)],
        ),
        final(s).pending() == old(s).pending() + Seq::new(
            nb as nat,
            |k: int| old(s).ring@[(old(s).produced@ + k) % (old(s).size() as int)],
        ),
{
    let ghost old_s = *s;
    proof {
        lemma_wrap_add(s.produced@ as int, nb);
    }
    let tmp = s.producer.wrapping_add(nb);
    s.producer = tmp;
    let ghost added = Seq::new(
        nb as nat,
        |k: int| old_s.ring@[(old_s.produced@ + k) % (old_s.size() as int)],
    );
    s.log = Ghost(s.log@ + added);
    s.produced = Ghost(s.produced@ + nb as nat);
    proof {
        assert forall|i: int| s.consumed@ <= i < s.produced@ implies s.ring@[i % (s.size() as int)]
            == #[trigger] s.log@[i] by {
            if i >= old_s.produced@ {
                assert(s.log@[i] == added[i - old_s.produced@]);
            } else {
                assert(s.log@[i] == old_s.log@[i]);
            }
        }
        assert(s.pending() =~= old_s.pending() + added);
    }
}


// ---------------------------------------------------------------------------
// Consumer side
// ---------------------------------------------------------------------------

/// The consumer's handle (`struct xsk_ring_cons`).
pub struct XskRingCons {
    pub cached_prod: u32,
    pub cached_cons: u32,
    pub mask: u32,
    pub size: u32,
    /// Unbounded value of `cached_prod`: published entries seen so far.
    pub seen: Ghost<nat>,
    /// Unbounded value of `cached_cons`: entries peeked so far.
    pub peeked: Ghost<nat>,
}

impl XskRingCons {
    /// The handle agrees with the shared memory `s`.
    pub open spec fn inv<T>(&self, s: &XskShared<T>) -> bool {
        &&& s.wf()
        &&& self.size as nat == s.size()
        &&& self.mask == self.size - 1
        &&& self.cached_prod == wrap32(self.seen@ as int)
        &&& self.cached_cons == wrap32(self.peeked@ as int)
        &&& s.consumed@ <= self.peeked@ <= self.seen@ <= s.produced@
    }

    /// Entries peeked and not yet released.
    pub open spec fn held<T>(&self, s: &XskShared<T>) -> nat {
        (self.peeked@ - s.consumed@) as nat
    }

    /// Entries seen and not yet peeked.
    pub open spec fn cached_avail(&self) -> nat {
        (self.seen@ - self.peeked@) as nat
    }

    /// A consumer handle on `s`: both cached counters are the shared ones,
    /// as libxdp sets up the RX ring.
    pub fn attach<T>(s: &XskShared<T>) -> (c: Self)
        requires
            s.wf(),
        ensures
            c.inv(s),
            c.seen@ == s.produced@,
            c.peeked@ == s.consumed@,
    {
        proof {
            lemma_ring_size_facts(s.size());
        }
        let size = s.ring.len() as u32;
        XskRingCons {
            cached_prod: s.producer,
            cached_cons: s.consumer,
            mask: size - 1,
            size,
            seen: Ghost(s.produced@),
            peeked: Ghost(s.consumed@),
        }
    }
}

/// Entries available to the consumer, at most `nb` (`xsk_cons_nb_avail`):
/// the producer counter is read again only when no cached entry is left.
pub fn xsk_cons_nb_avail<T>(r: &mut XskRingCons, s: &XskShared<T>, nb: u32) -> (n: u32)
    requires
        old(r).inv(s),
    ensures
        final(r).inv(s),
        final(r).cached_cons == old(r).cached_cons,
        final(r).peeked@ == old(r).peeked@,
        old(r).cached_avail() > 0 ==> *final(r) == *old(r),
        old(r).cached_avail() == 0 ==> final(r).seen@ == s.produced@,
        n as nat == if final(r).cached_avail() > nb { nb as nat } else { final(r).cached_avail() },
{
    proof {
        lemma_ring_size_facts(s.size());
        lemma_wrap_sub(r.seen@ as int, r.peeked@ as int);
    }
    let mut entries = r.cached_prod.wrapping_sub(r.cached_cons);
    if entries == 0 {
        r.cached_prod = s.producer;
        r.seen = Ghost(s.produced@);
        proof {
            lemma_wrap_sub(r.seen@ as int, r.peeked@ as int);
        }
        entries = r.cached_prod.wrapping_sub(r.cached_cons);
    }
    if entries > nb {
        nb
    } else {
        entries
    }
}

/// Takes up to `nb` available entries (`xsk_ring_cons__peek`); when some are
/// taken, `*idx` is the counter value of the first one.
pub fn xsk_ring_cons__peek<T>(r: &mut XskRingCons, s: &XskShared<T>, nb: u32, idx: &mut u32) -> (n: u32)
    requires
        old(r).inv(s),
    ensures
        final(r).inv(s),
        n <= nb,
        final(r).peeked@ == old(r).peeked@ + n,
        old(r).cached_avail() > 0 ==> n as nat == if old(r).cached_avail() > nb { nb as nat } else { old(r).cached_avail() },
        old(r).cached_avail() == 0 ==> n as nat == if s.produced@ - old(r).peeked@ > nb { nb as int } else { s.produced@ - old(r).peeked@ },
        n > 0 ==> *final(idx) == old(r).cached_cons,
        n == 0 ==> *final(idx) == *old(idx),
{
    let entries = xsk_cons_nb_avail(r, s, nb);
    if entries > 0 {
        *idx = r.cached_cons;
        proof {
            lemma_wrap_add(r.peeked@ as int, entries);
        }
        r.cached_cons = r.cached_cons.wrapping_add(entries);
        r.peeked = Ghost(r.peeked@ + entries as nat);
    }
    entries
}

/// Reads the peeked entry of counter value `idx`
/// (`xsk_ring_cons__rx_desc` / `xsk_ring_cons__comp_addr`). It is the entry
/// that the producer published at that position.
pub fn xsk_ring_cons__read<T: Copy>(r: &XskRingCons, s: &XskShared<T>, idx: u32) -> (v: T)
    requires
        r.inv(s),
        vstd::wrapping::u32_specs::wrapping_sub(idx, s.consumer) < r.held(s),
    ensures
        v == s.log@[s.consumed@ + vstd::wrapping::u32_specs::wrapping_sub(idx, s.consumer)],
        v == s.pending()[vstd::wrapping::u32_specs::wrapping_sub(idx, s.consumer) as int],
{
    let ghost off = vstd::wrapping::u32_specs::wrapping_sub(idx, s.consumer) as int;
    let ghost pos = s.consumed@ + off;
    proof {
        lemma_ring_size_facts(s.size());
        lemma_ring_index(pos, r.size, r.mask);
        lemma_wrap_add(s.consumed@ as int, off as u32);
        lemma_small_mod(off as nat, counter_modulus() as nat);
        lemma_mod_bound(pos, counter_modulus());
        lemma_mod_bound(s.consumed@ as int, counter_modulus());
        lemma_wrap_sub(pos, s.consumed@ as int);
        assert(wrap32(pos) == idx);
        assert(s.ring@[pos % (s.size() as int)] == s.log@[pos]);
    }
    s.ring[(idx & r.mask) as usize]
}

/// Hands `nb` peeked entries back to the producer (`xsk_ring_cons__release`).
pub fn xsk_ring_cons__release<T>(r: &XskRingCons, s: &mut XskShared<T>, nb: u32)
    requires
        r.inv(&*old(s)),
        nb <= r.held(&*old(s)),
    ensures
        r.inv(&*final(s)),
        final(s).consumed@ == old(s).consumed@ + nb,
        final(s).produced@ == old(s).produced@,
        final(s).producer == old(s).producer,
        final(s).ring@ == old(s).ring@,
        final(s).log@ == old(s).log@,
        final(s).pending() == old(s).pending().subrange(nb as int, old(s).pending().len() as int),
{
    proof {
        lemma_wrap_add(s.consumed@ as int, nb);
    }
    let tmp = s.consumer.wrapping_add(nb);
    s.consumer = tmp;
    s.consumed = Ghost(s.consumed@ + nb as nat);
}


// ---------------------------------------------------------------------------
// The two parties together
// ---------------------------------------------------------------------------

/// What the producer does to the shared memory (publishing entries) leaves
/// the consumer's handle valid: the consumer counter is untouched and every
/// entry the consumer may still read keeps its value.
pub proof fn law_publish_keeps_consumer<T>(c: XskRingCons, s0: XskShared<T>, s1: XskShared<T>)
    requires
        c.inv(&s0),
        s1.wf(),
        s1.size() == s0.size(),
        s1.consumer == s0.consumer,
        s1.consumed@ == s0.consumed@,
        s0.produced@ <= s1.produced@,
        s1.log@.take(s0.produced@ as int) == s0.log@,
    ensures
        c.inv(&s1),
        s1.pending().take(s0.pending().len() as int) == s0.pending(),
{
    assert(s1.pending().take(s0.pending().len() as int) =~= s0.pending()) by {
        assert forall|i: int| 0 <= i < s0.pending().len() implies s1.pending()[i] == s0.pending()[i] by {
            assert(s1.log@.take(s0.produced@ as int)[s0.consumed@ + i] == s1.log@[s0.consumed@ + i]);
        }
    }
}

/// What the consumer does to the shared memory (releasing entries) leaves
/// the producer's handle valid: the producer counter and the published
/// entries are untouched, and only more room is made.
pub proof fn law_release_keeps_producer<T>(p: XskRingProd, s0: XskShared<T>, s1: XskShared<T>)
    requires
        p.inv(&s0),
        s1.wf(),
        s1.size() == s0.size(),
        s1.producer == s0.producer,
        s1.produced@ == s0.produced@,
        s0.consumed@ <= s1.consumed@,
    ensures
        p.inv(&s1),
        p.outstanding(&s1) == p.outstanding(&s0),
{
}

// ---------------------------------------------------------------------------
// Socket and ring set-up
// ---------------------------------------------------------------------------

/// `EINVAL`: an argument was invalid.
pub const EINVAL: i32 = 22;

/// Size in bytes of `struct xdp_mmap_offsets` (four rings of four offsets).
pub const XDP_MMAP_OFFSETS_SIZE: u32 = 128;

/// Size in bytes of `struct xdp_mmap_offsets_v1` (four rings of three
/// offsets, no flags), what kernels up to 5.3 return.
pub const XDP_MMAP_OFFSETS_V1_SIZE: u32 = 96;

/// Default number of RX descriptors (`XSK_RING_CONS__DEFAULT_NUM_DESCS`).
pub const XSK_RING_CONS_DEFAULT_NUM_DESCS: u32 = 2048;

/// Default number of TX descriptors (`XSK_RING_PROD__DEFAULT_NUM_DESCS`).
pub const XSK_RING_PROD_DEFAULT_NUM_DESCS: u32 = 2048;

/// The only libxdp flag a socket accepts: do not load the XDP program.
pub const XSK_LIBXDP_FLAGS_INHIBIT_PROG_LOAD: u32 = 1;

/// Address family of AF_XDP sockets (`PF_XDP`).
pub const PF_XDP: u16 = 44;

/// Bind flag: the socket shares the UMEM of another socket.
pub const XDP_SHARED_UMEM: u16 = 1;

/// Where a ring's producer counter, consumer counter, descriptors and flags
/// lie in its mapping (`struct xdp_ring_offset`).
#[derive(Clone, Copy, Debug, PartialEq, Eq)]
pub struct XdpRingOffset {
    pub producer: u64,
    pub consumer: u64,
    pub desc: u64,
    pub flags: u64,
}

/// The offsets of the RX, TX, fill and completion rings
/// (`struct xdp_mmap_offsets`).
#[derive(Clone, Copy, Debug, PartialEq, Eq)]
pub struct XdpMmapOffsets {
    pub rx: XdpRingOffset,
    pub tx: XdpRingOffset,
    pub fr: XdpRingOffset,
    pub cr: XdpRingOffset,
}

/// The offsets that a kernel without flags fields wrote, moved to their
/// places. Such a kernel fills the first twelve words of the structure with
/// producer, consumer and descriptor offsets of the RX, TX, fill and
/// completion rings in turn (`struct xdp_mmap_offsets_v1`); read in the
/// current layout these are the words `rx.producer`, `rx.consumer`,
/// `rx.desc`, `rx.flags`, `tx.producer`, ... `fr.flags`. Each ring's flags
/// word goes right after its consumer counter.
pub open spec fn offsets_from_v1(off: XdpMmapOffsets) -> XdpMmapOffsets {
    XdpMmapOffsets {
        rx: XdpRingOffset {
            producer: off.rx.producer,
            consumer: off.rx.consumer,
            desc: off.rx.desc,
            flags: (off.rx.consumer + 4) as u64,
        },
        tx: XdpRingOffset {
            producer: off.rx.flags,
            consumer: off.tx.producer,
            desc: off.tx.consumer,
            flags: (off.tx.producer + 4) as u64,
        },
        fr: XdpRingOffset {
            producer: off.tx.desc,
            consumer: off.tx.flags,
            desc: off.fr.producer,
            flags: (off.tx.flags + 4) as u64,
        },
        cr: XdpRingOffset {
            producer: off.fr.consumer,
            consumer: off.fr.desc,
            desc: off.fr.flags,
            flags: (off.fr.desc + 4) as u64,
        },
    }
}

/// Every consumer offset that an old-format answer holds leaves room for a
/// flags word after it.
pub open spec fn offsets_fit_v1(off: XdpMmapOffsets) -> bool {
    &&& off.rx.consumer + 4 <= u64::MAX
    &&& off.tx.producer + 4 <= u64::MAX
    &&& off.tx.flags + 4 <= u64::MAX
    &&& off.fr.desc + 4 <= u64::MAX
}

/// Moves offsets read from a kernel without flags fields into the current
/// layout, each ring's flags word after its consumer counter
/// (`xsk_mmap_offsets_v1`).
pub fn xsk_mmap_offsets_v1(off: &mut XdpMmapOffsets)
    requires
        offsets_fit_v1(*old(off)),
    ensures
        *final(off) == offsets_from_v1(*old(off)),
{
    let v1 = *off;
    off.rx = XdpRingOffset {
        producer: v1.rx.producer,
        consumer: v1.rx.consumer,
        desc: v1.rx.desc,
        flags: v1.rx.consumer + 4,
    };
    off.tx = XdpRingOffset {
        producer: v1.rx.flags,
        consumer: v1.tx.producer,
        desc: v1.tx.consumer,
        flags: v1.tx.producer + 4,
    };
    off.fr = XdpRingOffset {
        producer: v1.tx.desc,
        consumer: v1.tx.flags,
        desc: v1.fr.producer,
        flags: v1.tx.flags + 4,
    };
    off.cr = XdpRingOffset {
        producer: v1.fr.consumer,
        consumer: v1.fr.desc,
        desc: v1.fr.flags,
        flags: v1.fr.desc + 4,
    };
}

/// What `xsk_get_mmap_offsets` makes of the kernel's answer to the
/// `XDP_MMAP_OFFSETS` query: `err` is what `getsockopt` returned and `optlen`
/// the length it filled in. An error is passed on; a full-size answer is
/// taken as it is, an old-format one completed, and any other length is
/// `-EINVAL`.
pub fn xsk_get_mmap_offsets(err: i32, optlen: u32, off: &mut XdpMmapOffsets) -> (r: i32)
    requires
        err == 0 && optlen == XDP_MMAP_OFFSETS_V1_SIZE ==> offsets_fit_v1(*old(off)),
    ensures
        err != 0 ==> r == err && *final(off) == *old(off),
        err == 0 && optlen == XDP_MMAP_OFFSETS_SIZE ==> r == 0 && *final(off) == *old(off),
        err == 0 && optlen == XDP_MMAP_OFFSETS_V1_SIZE ==> r == 0 && *final(off) == offsets_from_v1(*old(off)),
        err == 0 && optlen != XDP_MMAP_OFFSETS_SIZE && optlen != XDP_MMAP_OFFSETS_V1_SIZE ==> r == -EINVAL
            && *final(off) == *old(off),
{
    if err != 0 {
        return err;
    }
    if optlen == XDP_MMAP_OFFSETS_SIZE {
        return 0;
    }
    if optlen == XDP_MMAP_OFFSETS_V1_SIZE {
        xsk_mmap_offsets_v1(off);
        return 0;
    }
    -EINVAL
}

/// The options a socket is created with (`struct xsk_socket_opts`); the
/// rings it is given are recorded by whether they are there.
#[derive(Clone, Copy, Debug, PartialEq, Eq)]
pub struct XskSocketOpts {
    pub has_rx: bool,
    pub has_tx: bool,
    pub has_fill: bool,
    pub has_comp: bool,
    pub rx_size: u32,
    pub tx_size: u32,
    pub libxdp_flags: u32,
    pub xdp_flags: u32,
    pub bind_flags: u16,
}

/// The configuration of a socket (`struct xsk_socket_config`).
#[derive(Clone, Copy, Debug, PartialEq, Eq)]
pub struct XskSocketConfig {
    pub rx_size: u32,
    pub tx_size: u32,
    pub libxdp_flags: u32,
    pub xdp_flags: u32,
    pub bind_flags: u16,
}

/// Fills `cfg` from `opts` (`xsk_set_xdp_socket_config`): a ring size of 0
/// takes the default, and libxdp flags other than the one that inhibits
/// loading the XDP program are refused with `-EINVAL`, `cfg` untouched.
pub fn xsk_set_xdp_socket_config(cfg: &mut XskSocketConfig, opts: &XskSocketOpts) -> (r: i32)
    ensures
        opts.libxdp_flags & !XSK_LIBXDP_FLAGS_INHIBIT_PROG_LOAD != 0 ==> r == -EINVAL && *final(cfg) == *old(cfg),
        opts.libxdp_flags & !XSK_LIBXDP_FLAGS_INHIBIT_PROG_LOAD == 0 ==> r == 0 && *final(cfg) == (XskSocketConfig {
            rx_size: if opts.rx_size != 0 { opts.rx_size } else { XSK_RING_CONS_DEFAULT_NUM_DESCS },
            tx_size: if opts.tx_size != 0 { opts.tx_size } else { XSK_RING_PROD_DEFAULT_NUM_DESCS },
            libxdp_flags: opts.libxdp_flags,
            xdp_flags: opts.xdp_flags,
            bind_flags: opts.bind_flags,
        }),
{
    let libxdp_flags = opts.libxdp_flags;
    if libxdp_flags & !XSK_LIBXDP_FLAGS_INHIBIT_PROG_LOAD != 0 {
        return -EINVAL;
    }
    cfg.rx_size = if opts.rx_size != 0 { opts.rx_size } else { XSK_RING_CONS_DEFAULT_NUM_DESCS };
    cfg.tx_size = if opts.tx_size != 0 { opts.tx_size } else { XSK_RING_PROD_DEFAULT_NUM_DESCS };
    cfg.libxdp_flags = libxdp_flags;
    cfg.xdp_flags = opts.xdp_flags;
    cfg.bind_flags = opts.bind_flags;
    0
}

/// The address an AF_XDP socket binds to (`struct sockaddr_xdp`).
#[derive(Clone, Copy, Debug, PartialEq, Eq)]
pub struct SockaddrXdp {
    pub sxdp_family: u16,
    pub sxdp_flags: u16,
    pub sxdp_ifindex: u32,
    pub sxdp_queue_id: u32,
    pub sxdp_shared_umem_fd: u32,
}

/// The bind address of a socket on interface `ifindex`, queue `queue_id`: a
/// socket that shares its UMEM with others (the UMEM has more than one user)
/// binds with `XDP_SHARED_UMEM` and the UMEM's descriptor, any other with its
/// configured bind flags.
pub fn xsk_bind_address(ifindex: i32, queue_id: u32, umem_refcount: i32, umem_fd: i32, bind_flags: u16) -> (a: SockaddrXdp)
    ensures
        a.sxdp_family == PF_XDP,
        a.sxdp_ifindex == ifindex as u32,
        a.sxdp_queue_id == queue_id,
        umem_refcount > 1 ==> a.sxdp_flags == XDP_SHARED_UMEM && a.sxdp_shared_umem_fd == umem_fd as u32,
        umem_refcount <= 1 ==> a.sxdp_flags == bind_flags && a.sxdp_shared_umem_fd == 0,
{
    let mut sxdp = SockaddrXdp {
        sxdp_family: PF_XDP,
        sxdp_flags: 0,
        sxdp_ifindex: ifindex as u32,
        sxdp_queue_id: queue_id,
        sxdp_shared_umem_fd: 0,
    };
    if umem_refcount > 1 {
        sxdp.sxdp_flags = sxdp.sxdp_flags | XDP_SHARED_UMEM;
        assert(0u16 | 1u16 == 1u16) by (bit_vector);
        sxdp.sxdp_shared_umem_fd = umem_fd as u32;
    } else {
        sxdp.sxdp_flags = bind_flags;
    }
    sxdp
}

/// Length of the mapping of a ring whose descriptors start at `desc` and
/// hold `size` entries of `entry` bytes; `None` when it does not fit in a
/// `usize`.
pub fn ring_map_len(desc: u64, size: u32, entry: u64) -> (r: Option<usize>)
    requires
        entry <= 64,
    ensures
        desc + size * entry <= usize::MAX ==> r == Some((desc + size * entry) as usize),
        desc + size * entry > usize::MAX ==> r is None,
{
    assert(size * entry <= 0xffff_ffff * 64) by (nonlinear_arith)
        requires
            size <= 0xffff_ffff,
            entry <= 64,
    ;
    let bytes = size as u64 * entry;
    if desc > usize::MAX as u64 || bytes > usize::MAX as u64 - desc {
        return None;
    }
    Some((desc + bytes) as usize)
}

/// Whether a socket can be created with `opts` on a UMEM that is there
/// (`has_umem`): it needs an RX or a TX ring, and either both a fill and a
/// completion ring or neither (then the UMEM's own are used).
pub fn xsk_socket_opts_usable(opts: &XskSocketOpts, has_umem: bool) -> (r: bool)
    ensures
        r == (has_umem && (opts.has_rx || opts.has_tx) && opts.has_fill == opts.has_comp),
{
    if !has_umem || (!opts.has_rx && !opts.has_tx) || (opts.has_fill ^ opts.has_comp) {
        return false;
    }
    true
}

/// The options of a socket created on a UMEM with the given rings and, when
/// there is one, the user's configuration (`xsk_socket__create_shared`); with
/// no configuration the sizes and flags are 0, which means the defaults.
pub fn xsk_shared_socket_opts(
    has_rx: bool,
    has_tx: bool,
    has_fill: bool,
    has_comp: bool,
    usr_config: Option<XskSocketConfig>,
) -> (o: XskSocketOpts)
    ensures
        o.has_rx == has_rx && o.has_tx == has_tx && o.has_fill == has_fill && o.has_comp == has_comp,
        match usr_config {
            Some(c) => o.rx_size == c.rx_size && o.tx_size == c.tx_size && o.libxdp_flags == c.libxdp_flags
                && o.xdp_flags == c.xdp_flags && o.bind_flags == c.bind_flags,
            None => o.rx_size == 0 && o.tx_size == 0 && o.libxdp_flags == 0 && o.xdp_flags == 0 && o.bind_flags == 0,
        },
{
    let mut opts = XskSocketOpts {
        has_rx,
        has_tx,
        has_fill,
        has_comp,
        rx_size: 0,
        tx_size: 0,
        libxdp_flags: 0,
        xdp_flags: 0,
        bind_flags: 0,
    };
    if let Some(c) = usr_config {
        opts.rx_size = c.rx_size;
        opts.tx_size = c.tx_size;
        opts.libxdp_flags = c.libxdp_flags;
        opts.xdp_flags = c.xdp_flags;
        opts.bind_flags = c.bind_flags;
    }
    opts
}

/// What names a socket context: its network namespace, interface and queue.
#[derive(Clone, Copy, Debug, PartialEq, Eq, Hash, Structural)]
pub struct CtxIdent {
    pub netns_cookie: u64,
    pub ifindex: i32,
    pub queue_id: u32,
}

/// `getsockopt` has no such option (Linux `ENOPROTOOPT`).
pub const ENOPROTOOPT: i32 = 92;

/// What a socket's creation knows of the UMEM it is made on: its descriptor,
/// how many sockets use it, whether its RX and TX rings were set up on that
/// descriptor, and whether it still holds the fill and completion rings it
/// was made with.
#[derive(Clone, Copy, Debug, PartialEq, Eq)]
pub struct XskUmemInfo {
    pub fd: i32,
    pub refcount: i32,
    pub rx_ring_setup_done: bool,
    pub tx_ring_setup_done: bool,
    pub has_fill_save: bool,
    pub has_comp_save: bool,
}

/// How a socket is set up on a UMEM.
#[derive(Clone, Copy, Debug, PartialEq, Eq)]
pub struct XskSocketPlan {
    /// The socket uses the UMEM's own fill and completion rings.
    pub use_umem_rings: bool,
    /// The socket uses the UMEM's descriptor (the UMEM has no user yet);
    /// otherwise it opens a socket of its own.
    pub reuse_umem_fd: bool,
    /// The RX ring is to be set up.
    pub setup_rx: bool,
    /// The TX ring is to be set up.
    pub setup_tx: bool,
    /// The XDP program is to be loaded.
    pub load_prog: bool,
}

/// The setup of a socket made with `opts` on `umem` (the decisions of
/// `xsk_socket__create_opts`): without fill and completion rings of its own it
/// takes the UMEM's; the first user of a UMEM works on the UMEM's descriptor
/// and skips the rings already set up there, later users open their own; the
/// XDP program is loaded unless the options inhibit it.
pub fn xsk_socket_plan(opts: &XskSocketOpts, umem: &XskUmemInfo) -> (p: XskSocketPlan)
    ensures
        p.use_umem_rings == (!opts.has_fill && !opts.has_comp),
        p.reuse_umem_fd == (umem.refcount <= 0),
        p.setup_rx == (opts.has_rx && !(p.reuse_umem_fd && umem.rx_ring_setup_done)),
        p.setup_tx == (opts.has_tx && !(p.reuse_umem_fd && umem.tx_ring_setup_done)),
        p.load_prog == (opts.libxdp_flags & XSK_LIBXDP_FLAGS_INHIBIT_PROG_LOAD == 0),
{
    let reuse = umem.refcount <= 0;
    let (rx_done, tx_done) = if reuse {
        (umem.rx_ring_setup_done, umem.tx_ring_setup_done)
    } else {
        (false, false)
    };
    XskSocketPlan {
        use_umem_rings: !opts.has_fill && !opts.has_comp,
        reuse_umem_fd: reuse,
        setup_rx: opts.has_rx && !rx_done,
        setup_tx: opts.has_tx && !tx_done,
        load_prog: opts.libxdp_flags & XSK_LIBXDP_FLAGS_INHIBIT_PROG_LOAD == 0,
    }
}

/// The network-namespace cookie of a socket, from what `getsockopt` answered
/// (`err`, and `errno` when it failed): the value read, or 1 when the kernel
/// does not know the option; any other failure makes the creation fail.
pub fn xsk_netns_cookie(err: i32, errno: i32, value: u64) -> (r: Option<u64>)
    ensures
        err == 0 ==> r == Some(value),
        err != 0 && errno == ENOPROTOOPT ==> r == Some(1u64),
        err != 0 && errno != ENOPROTOOPT ==> r is None,
{
    if err == 0 {
        Some(value)
    } else if errno == ENOPROTOOPT {
        Some(1)
    } else {
        None
    }
}

impl XskUmemInfo {
    /// Records a socket made on the UMEM with `plan`: rings set up on the
    /// UMEM's own descriptor stay set up there, and the UMEM no longer holds
    /// the fill and completion rings it was made with.
    pub fn record_socket(&mut self, plan: &XskSocketPlan)
        ensures
            final(self).fd == old(self).fd,
            final(self).refcount == old(self).refcount,
            final(self).rx_ring_setup_done == (old(self).rx_ring_setup_done || (plan.reuse_umem_fd
                && plan.setup_rx)),
            final(self).tx_ring_setup_done == (old(self).tx_ring_setup_done || (plan.reuse_umem_fd
                && plan.setup_tx)),
            !final(self).has_fill_save,
            !final(self).has_comp_save,
    {
        if plan.reuse_umem_fd && plan.setup_rx {
            self.rx_ring_setup_done = true;
        }
        if plan.reuse_umem_fd && plan.setup_tx {
            self.tx_ring_setup_done = true;
        }
        self.has_fill_save = false;
        self.has_comp_save = false;
    }
}

/// The contexts in use, each listed once.
pub struct ActiveCtx {
    pub idents: Vec<CtxIdent>,
}

impl ActiveCtx {
    /// The set of contexts in use.
    pub open spec fn view(&self) -> Set<CtxIdent> {
        self.idents@.to_set()
    }

    /// No context is listed twice.
    pub open spec fn wf(&self) -> bool {
        self.idents@.no_duplicates()
    }

    /// No context in use.
    pub fn new() -> (a: Self)
        ensures
            a.wf(),
            a.view() == Set::<CtxIdent>::empty(),
    {
        let a = ActiveCtx { idents: Vec::new() };
        proof {
            assert(a.view() =~= Set::<CtxIdent>::empty());
        }
        a
    }

    /// Claims context `ident` for a new socket (the check of
    /// `xsk_create_ctx`): refused, with nothing changed, when it is in use
    /// already.
    pub fn claim(&mut self, ident: CtxIdent) -> (r: bool)
        requires
            old(self).wf(),
        ensures
            final(self).wf(),
            r == !old(self).view().contains(ident),
            final(self).view() == old(self).view().insert(ident),
            !r ==> *final(self) == *old(self),
    {
        let mut i: usize = 0;
        while i < self.idents.len()
            invariant
                *self == *old(self),
                self.wf(),
                i <= self.idents@.len(),
                forall|j: int| 0 <= j < i ==> self.idents@[j] != ident,
            decreases self.idents@.len() - i,
        {
            if self.idents[i] == ident {
                proof {
                    assert(self.idents@.to_set().contains(ident)) by {
                        assert(self.idents@.contains(ident));
                    }
                    assert(self.view().insert(ident) =~= self.view());
                }
                return false;
            }
            i = i + 1;
        }
        proof {
            assert(!self.idents@.contains(ident));
        }
        let ghost before = self.idents@;
        self.idents.push(ident);
        proof {
            assert(self.idents@ == before.push(ident));
            assert(self.view() =~= old(self).view().insert(ident)) by {
                assert forall|x: CtxIdent| self.view().contains(x) <==> old(self).view().contains(x) || x == ident by {
                    if self.view().contains(x) {
                        let k = choose|k: int| 0 <= k < self.idents@.len() && self.idents@[k] == x;
                        if k < before.len() {
                            assert(before[k] == x);
                            assert(before.contains(x));
                        }
                    }
                    if old(self).view().contains(x) {
                        assert(before.contains(x));
                        let k = choose|k: int| 0 <= k < before.len() && before[k] == x;
                        assert(self.idents@[k] == x);
                        assert(self.idents@.contains(x));
                    }
                    if x == ident {
                        assert(self.idents@[before.len() as int] == ident);
                        assert(self.idents@.contains(x));
                    }
                }
            }
            assert(self.idents@.no_duplicates()) by {
                assert forall|a: int, b: int| 0 <= a < self.idents@.len() && 0 <= b < self.idents@.len() && a != b implies self.idents@[a] != self.idents@[b] by {
                    if a < before.len() && b < before.len() {
                    } else if a == before.len() {
                        assert(before[b] != ident);
                    } else {
                        assert(before[a] != ident);
                    }
                }
            }
        }
        true
    }
}

} // verus!
