//! The cache that holds the bits a stream has read but not yet consumed.

use core::marker::PhantomData;
use vstd::arithmetic::power2::{
    lemma2_to64, lemma2_to64_rest, lemma_pow2_adds, lemma_pow2_pos, pow2,
};
use vstd::bits::{lemma_u64_shl_is_mul, lemma_u64_shr_is_div};
use vstd::prelude::*;

verus! {

broadcast use vstd::layout::layout_of_primitives;

/// The direction in which bits move through a cache.
#[derive(Debug, Copy, Clone, PartialEq, Eq, Structural)]
pub enum BitStreamFlow {
    LowInHighOut,
}

/// A type that stands for one flow of bits.
pub trait BitStreamFlowTrait {

}

/// The width of the cache, in bits.
pub open spec fn cache_size() -> u32 {
    64
}

/// What a cache holds: its bits, and how many of them count.
pub struct CacheState {
    pub cache: u64,
    pub fill_level: u32,
}

/// A cache of bits for the flow `T`.
pub struct BitStreamCacheBase<T: BitStreamFlowTrait> {
    /// The bits stored in the cache.
    cache: u64,
    /// How many bits of the cache count.
    fill_level: u32,
    _phantom_data: PhantomData<T>,
}

impl<T: BitStreamFlowTrait> View for BitStreamCacheBase<T> {
    type V = CacheState;

    closed spec fn view(&self) -> CacheState {
        CacheState { cache: self.cache, fill_level: self.fill_level }
    }
}

impl<T: BitStreamFlowTrait> BitStreamCacheBase<T> {
    /// No more bits count than the cache is wide.
    #[verifier::type_invariant]
    spec fn well_formed(self) -> bool {
        self.fill_level <= cache_size()
    }

    /// Width of cache, in bits.
    pub const SIZE: u32 = u64::BITS;

    /// How many bits could be requested to be filled.
    pub const MAX_GET_BITS: u32 = u32::BITS;

    /// An empty cache.
    pub fn new() -> (r: Self)
        ensures
            r@ == (CacheState { cache: 0, fill_level: 0 }),
    {
        Self { cache: 0, fill_level: 0, _phantom_data: PhantomData }
    }
}

/// The operations of a bit cache.
pub trait BitStreamCache: Sized + View<V = CacheState> {
    /// When `push(bits, count)` may be called.
    spec fn push_allowed(&self, count: u32) -> bool;

    /// The cache after `push(bits, count)`.
    spec fn pushed(&self, bits: u64, count: u32) -> CacheState;

    /// When `peek(count)` may be called.
    spec fn peek_allowed(&self, count: u32) -> bool;

    /// What `peek(count)` returns.
    spec fn peeked(&self, count: u32) -> u64;

    /// When `skip(count)` may be called.
    spec fn skip_allowed(&self, count: u32) -> bool;

    /// The cache after `skip(count)`.
    spec fn skipped(&self, count: u32) -> CacheState;

    /// Adds the low `count` bits of `bits`.
    fn push(&mut self, bits: u64, count: u32)
        requires
            old(self).push_allowed(count),
        ensures
            final(self)@ == old(self).pushed(bits, count),
    ;

    /// The next `count` bits, without consuming them.
    fn peek(&self, count: u32) -> (r: u64)
        requires
            self.peek_allowed(count),
        ensures
            r == self.peeked(count),
    ;

    /// Consumes `count` bits.
    fn skip(&mut self, count: u32)
        requires
            old(self).skip_allowed(count),
        ensures
            final(self)@ == old(self).skipped(count),
    ;
}

/// Types whose width can be asked for.
trait Integer {

}

impl Integer for u64 {

}

/// How many bits make a byte.
const BITS_PER_BYTE: usize = 8;

/// The width of an integer type, in bits.
trait Bitwidth {
    fn bitwidth() -> u32;
}

impl Bitwidth for u64 {
    fn bitwidth() -> (r: u32)
        ensures
            r == 64,
    {
        (BITS_PER_BYTE * core::mem::size_of::<u64>()) as u32
    }
}

/// The `num_bits` most significant bits of `value`.
pub fn extract_high_bits(value: u64, num_bits: u32) -> (r: u64)
    requires
        1 <= num_bits <= 64,
    ensures
        r == value >> (64 - num_bits) as u64,
{
    let num_low_bits_to_skip = <u64 as Bitwidth>::bitwidth() - num_bits;
    value >> num_low_bits_to_skip
}

/// The flow in which bits enter at the low end and leave at the high end.
pub struct BitStreamFlowLowInHighOut;

impl BitStreamFlowTrait for BitStreamFlowLowInHighOut {

}

impl BitStreamCache for BitStreamCacheBase<BitStreamFlowLowInHighOut> {
    /// The new bits must fit in the vacant part of the cache.
    open spec fn push_allowed(&self, count: u32) -> bool {
        self@.fill_level + count <= cache_size()
    }

    /// The new bits go right below the bits already there, leaving no gap
    /// up to the cache's width; a push of no bits leaves the bits as they
    /// were.
    open spec fn pushed(&self, bits: u64, count: u32) -> CacheState {
        let gap = (cache_size() - self@.fill_level - count) as u64;
        CacheState {
            cache: if count != 0 {
                self@.cache | (bits << gap)
            } else {
                self@.cache
            },
            fill_level: (self@.fill_level + count) as u32,
        }
    }

    open spec fn peek_allowed(&self, count: u32) -> bool {
        1 <= count <= 64
    }

    /// The `count` most significant bits of the 64-bit cache.
    open spec fn peeked(&self, count: u32) -> u64 {
        self@.cache >> (64 - count) as u64
    }

    /// At most the bits held, and fewer than the cache's width (a shift
    /// by the whole width is not defined).
    open spec fn skip_allowed(&self, count: u32) -> bool {
        count <= self@.fill_level && count < cache_size()
    }

    /// The cache shifted up by `count` bits.
    open spec fn skipped(&self, count: u32) -> CacheState {
        CacheState { cache: self@.cache << count as u64, fill_level: (self@.fill_level - count) as u32 }
    }

    fn push(&mut self, bits: u64, count: u32) {
        let vacant_bits: u32 = Self::SIZE - self.fill_level;
        // If the low bits were or-ed into the cache right now, this many
        // unfilled bits would stay between them and the bits already there.
        let empty_bits_gap = vacant_bits - count;
        if count != 0 {
            // So shift the new bits so that there is no such gap.
            self.cache = self.cache | (bits << empty_bits_gap);
        }
        self.fill_level = self.fill_level + count;
    }

    fn peek(&self, count: u32) -> (r: u64) {
        extract_high_bits(self.cache, count)
    }

    fn skip(&mut self, count: u32) {
        proof {
            use_type_invariant(&*self);
        }
        self.cache = self.cache << count;
        self.fill_level = self.fill_level - count;
    }
}


/// The 64-bit `cache` holds the bits `pending` (read as a number, the
/// oldest bit most significant): `fill` of them, at the top, with only zero
/// bits below.
pub open spec fn holds_bits(cache: u64, fill: u32, pending: nat) -> bool {
    &&& fill <= 64
    &&& pending < pow2(fill as nat)
    &&& cache as nat == pending * pow2((64 - fill) as nat)
}

/// The cache after the low `count` bits of `bits` are put right below the
/// `fill` bits held at the top of `cache`.
pub open spec fn push_bits(cache: u64, fill: u32, bits: u64, count: u32) -> u64 {
    if count != 0 {
        cache | (bits << ((64 - fill - count) as u64))
    } else {
        cache
    }
}

/// Or-ing a multiple of `2^k` with a number below `2^k` adds them.
proof fn lemma_or_is_add(a: u64, b: u64, k: u64)
    requires
        k < 64,
        a as nat % pow2(k as nat) == 0,
        (b as nat) < pow2(k as nat),
    ensures
        a | b == a + b,
{
    lemma_u64_shr_is_div(a, k);
    lemma_u64_shr_is_div(b, k);
    lemma_pow2_pos(k as nat);
    vstd::arithmetic::div_mod::lemma_fundamental_div_mod(a as int, pow2(k as nat) as int);
    assert((a >> k) * pow2(k as nat) == a);
    assert((a >> k) * pow2(k as nat) <= u64::MAX);
    lemma_u64_shl_is_mul(a >> k, k);
    assert((a >> k) << k == a);
    assert(b >> k == 0) by {
        vstd::arithmetic::div_mod::lemma_basic_div(b as int, pow2(k as nat) as int);
    }
    assert((a >> k) << k == a && b >> k == 0 && k < 64 ==> a | b == a + b) by (bit_vector);
}

/// Putting `count` bits that fit in `count` bits below the held ones
/// appends them to the held bits.
pub proof fn lemma_push_appends(cache: u64, fill: u32, pending: nat, bits: u64, count: u32)
    requires
        holds_bits(cache, fill, pending),
        fill + count <= 64,
        (bits as nat) < pow2(count as nat),
    ensures
        holds_bits(
            push_bits(cache, fill, bits, count),
            (fill + count) as u32,
            pending * pow2(count as nat) + bits as nat,
        ),
{
    let f = fill as nat;
    let c = count as nat;
    let t = push_bits(cache, fill, bits, count);
    if count == 0 {
        lemma2_to64();
        assert(bits == 0);
        assert(pow2(0) == 1);
        vstd::arithmetic::mul::lemma_mul_basics(pending as int);
        assert(pending * pow2(0) + bits as nat == pending);
    } else {
        let gap = (64 - f - c) as nat;
        lemma_pow2_adds(c, gap);
        lemma_pow2_adds(f, c);
        lemma_pow2_pos(gap);
        lemma_pow2_pos(c);
        assert(bits as nat * pow2(gap) < pow2(c) * pow2(gap)) by {
            vstd::arithmetic::mul::lemma_mul_strict_inequality(
                bits as int,
                pow2(c) as int,
                pow2(gap) as int,
            );
        }
        assert(pow2(c + gap) <= pow2(64)) by {
            if c + gap < 64 {
                vstd::arithmetic::power2::lemma_pow2_strictly_increases(c + gap, 64);
            }
        }
        lemma2_to64();
        lemma2_to64_rest();
        lemma_u64_shl_is_mul(bits, gap as u64);
        let b = bits << (gap as u64);
        assert(b as nat == bits as nat * pow2(gap));
        assert(cache as nat == (pending * pow2(c)) * pow2(gap)) by {
            vstd::arithmetic::mul::lemma_mul_is_associative(
                pending as int,
                pow2(c) as int,
                pow2(gap) as int,
            );
        }
        assert(cache as nat % pow2(c + gap) == 0) by {
            vstd::arithmetic::div_mod::lemma_mod_multiples_basic(
                pending as int,
                pow2(c + gap) as int,
            );
        }
        if c + gap < 64 {
            lemma_or_is_add(cache, b, (c + gap) as u64);
        } else {
            assert(f == 0);
            assert(pending == 0) by {
                lemma2_to64();
            }
            assert(cache as nat == 0) by {
                vstd::arithmetic::mul::lemma_mul_basics(pow2(64) as int);
            }
            assert(0u64 | b == b) by (bit_vector);
        }
        assert(t as nat == cache as nat + b as nat);
        assert(t as nat == (pending * pow2(c) + bits) * pow2(gap)) by {
            vstd::arithmetic::mul::lemma_mul_is_distributive_add_other_way(
                pow2(gap) as int,
                (pending * pow2(c)) as int,
                bits as int,
            );
        }
        assert((64 - (f + c)) as nat == gap);
        assert(pending * pow2(c) + bits < pow2(f + c)) by {
            assert(pending + 1 <= pow2(f));
            vstd::arithmetic::mul::lemma_mul_inequality(
                (pending + 1) as int,
                pow2(f) as int,
                pow2(c) as int,
            );
            vstd::arithmetic::mul::lemma_mul_is_distributive_add_other_way(
                pow2(c) as int,
                pending as int,
                1,
            );
        }
    }
}

/// The top `k` bits of a cache that holds `pending` in `fill` bits are the
/// `k` oldest held bits; shifting them out leaves the others held.
pub proof fn lemma_take_top(cache: u64, fill: u32, pending: nat, k: u32)
    requires
        holds_bits(cache, fill, pending),
        1 <= k <= fill,
    ensures
        (cache >> (64 - k) as u64) as nat == pending / pow2((fill - k) as nat),
        k < 64 ==> holds_bits(
            cache << k as u64,
            (fill - k) as u32,
            pending % pow2((fill - k) as nat),
        ),
{
    let f = fill as nat;
    let a = (64 - f) as nat;
    let m = (f - k) as nat;
    let x = cache;
    lemma_pow2_adds(a, m);
    lemma_pow2_pos(a);
    lemma_pow2_pos(m);
    lemma2_to64();
    lemma2_to64_rest();
    // The top bits.
    lemma_u64_shr_is_div(x, (64 - k) as u64);
    assert((a + m) as nat == (64 - k) as nat);
    assert(x as nat == pow2(a) * pending) by {
        vstd::arithmetic::mul::lemma_mul_is_commutative(pending as int, pow2(a) as int);
    }
    vstd::arithmetic::div_mod::lemma_div_multiples_vanish_quotient(
        pow2(a) as int,
        pending as int,
        pow2(m) as int,
    );
    assert((x >> (64 - k) as u64) as nat == pending / pow2(m));
    if k < 64 {
        let n = (64 - k) as u64;
        // What stays: the bits below the top ones, moved up.
        lemma_u64_shl_is_mul(1, n);
        let pn = 1u64 << n;
        assert(pn as nat == pow2(n as nat));
        assert(x << k as u64 == (x & (pn - 1) as u64) << k as u64) by (bit_vector)
            requires
                pn == 1u64 << n,
                n == 64 - k,
                1 <= k < 64,
        ;
        vstd::bits::lemma_u64_low_bits_mask_is_mod(x, n as nat);
        assert(vstd::bits::low_bits_mask(n as nat) == pn - 1);
        let low = x % pn;
        assert(x & (pn - 1) as u64 == low);
        vstd::arithmetic::div_mod::lemma_truncate_middle(
            pending as int,
            pow2(a) as int,
            pow2(m) as int,
        );
        let rest = pending % pow2(m);
        assert(low as nat == pow2(a) * rest);
        vstd::arithmetic::div_mod::lemma_mod_bound(pending as int, pow2(m) as int);
        lemma_pow2_adds(a + m, k as nat);
        lemma_pow2_adds(a, k as nat);
        assert(low * pow2(k as nat) == rest * pow2(a + k as nat)) by {
            vstd::arithmetic::mul::lemma_mul_is_commutative(pow2(a) as int, rest as int);
            vstd::arithmetic::mul::lemma_mul_is_associative(
                rest as int,
                pow2(a) as int,
                pow2(k as nat) as int,
            );
        }
        assert(rest * pow2(a + k as nat) < pow2(m) * pow2(a + k as nat)) by {
            lemma_pow2_pos(a + k as nat);
            vstd::arithmetic::mul::lemma_mul_strict_inequality(
                rest as int,
                pow2(m) as int,
                pow2(a + k as nat) as int,
            );
        }
        lemma_pow2_adds(m, a + k as nat);
        assert(m + a + k == 64);
        assert(low * pow2(k as nat) <= u64::MAX);
        lemma_u64_shl_is_mul(low, k as u64);
        assert((64 - (fill - k)) as nat == a + k);
    }
}


/// An empty cache holds no bits.
pub proof fn law_empty_cache_holds_nothing()
    ensures
        holds_bits(0, 0, 0),
{
    lemma2_to64();
    lemma2_to64_rest();
}

/// Pushing `count` bits that fit in `count` bits appends them to the bits
/// the cache holds: they come out after the older ones.
pub proof fn law_push_appends_to_cache(
    c: BitStreamCacheBase<BitStreamFlowLowInHighOut>,
    pending: nat,
    bits: u64,
    count: u32,
)
    requires
        holds_bits(c@.cache, c@.fill_level, pending),
        c.push_allowed(count),
        (bits as nat) < pow2(count as nat),
    ensures
        holds_bits(
            c.pushed(bits, count).cache,
            c.pushed(bits, count).fill_level,
            pending * pow2(count as nat) + bits as nat,
        ),
{
    lemma_push_appends(c@.cache, c@.fill_level, pending, bits, count);
}

/// Peeking `k` bits gives the `k` oldest bits the cache holds.
pub proof fn law_peek_reads_oldest_bits(
    c: BitStreamCacheBase<BitStreamFlowLowInHighOut>,
    pending: nat,
    k: u32,
)
    requires
        holds_bits(c@.cache, c@.fill_level, pending),
        1 <= k <= c@.fill_level,
    ensures
        c.peeked(k) as nat == pending / pow2((c@.fill_level - k) as nat),
{
    lemma_take_top(c@.cache, c@.fill_level, pending, k);
}

/// Skipping `k` bits drops the `k` oldest bits and keeps the others.
pub proof fn law_skip_drops_oldest_bits(
    c: BitStreamCacheBase<BitStreamFlowLowInHighOut>,
    pending: nat,
    k: u32,
)
    requires
        holds_bits(c@.cache, c@.fill_level, pending),
        c.skip_allowed(k),
    ensures
        holds_bits(
            c.skipped(k).cache,
            c.skipped(k).fill_level,
            pending % pow2((c@.fill_level - k) as nat),
        ),
{
    if k == 0 {
        let x = c@.cache;
        assert(x << 0u64 == x) by (bit_vector);
        vstd::arithmetic::div_mod::lemma_small_mod(pending, pow2(c@.fill_level as nat));
    } else {
        lemma_take_top(c@.cache, c@.fill_level, pending, k);
    }
}

/// Consuming `a` bits and then `b` bits is consuming `a + b` bits.
pub proof fn law_skip_twice(c: BitStreamCacheBase<BitStreamFlowLowInHighOut>, a: u32, b: u32)
    requires
        a + b <= c@.fill_level,
        a + b < cache_size(),
    ensures
        ({
            let once = c.skipped(a);
            let twice = CacheState {
                cache: once.cache << b as u64,
                fill_level: (once.fill_level - b) as u32,
            };
            twice == c.skipped((a + b) as u32)
        }),
{
    let x = c@.cache;
    let a64 = a as u64;
    let b64 = b as u64;
    assert((x << a64) << b64 == x << ((a64 + b64) as u64)) by (bit_vector)
        requires
            a64 + b64 < 64,
    ;
}

/// Pushing bits adds `count` to the fill level and keeps the bits that were
/// there.
pub proof fn law_push_keeps_bits(
    c: BitStreamCacheBase<BitStreamFlowLowInHighOut>,
    bits: u64,
    count: u32,
)
    requires
        c.push_allowed(count),
    ensures
        c.pushed(bits, count).fill_level == c@.fill_level + count,
        c.pushed(bits, count).cache & c@.cache == c@.cache,
{
    let x = c@.cache;
    let y = bits << (cache_size() - c@.fill_level - count) as u64;
    assert((x | y) & x == x) by (bit_vector);
    assert(x & x == x) by (bit_vector);
}

} // verus!
