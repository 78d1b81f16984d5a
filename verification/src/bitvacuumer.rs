//! The bit vacuumer: collects bits, most significant first, and hands out
//! every 32 of them as a chunk of four bytes in the chunk's byte order.

use core::marker::PhantomData;
use crate::bitstream::{BitOrderMSB32, BitOrderTrait};
use crate::bitstreamflow::{extract_high_bits, holds_bits, lemma_push_appends, lemma_take_top, push_bits};
use crate::endianness::le_bytes_u32;
use vstd::arithmetic::power2::{lemma_pow2_adds, lemma_pow2_pos, pow2};
use vstd::prelude::*;

verus! {

/// The properties of the vacuumer for the bit order `T`.
pub struct BitVacuumerTraits<T: BitOrderTrait>(pub T);

/// A vacuumer for the bit order `T`.
pub struct BitVacuumer<T: BitOrderTrait>(pub PhantomData<T>);

/// What a vacuumer holds: the bits not yet written, at the top of a 64-bit
/// cache (`fill_level` of them count), and the bytes written so far.
pub struct VacuumerState {
    pub cache: u64,
    pub fill_level: u32,
    pub output: Seq<u8>,
}

/// The width of the cache, in bits.
pub open spec fn vacuum_cache_size() -> u32 {
    64
}

/// The width of a chunk and of the write-back cache, in bits.
pub open spec fn chunk_bits() -> u32 {
    32
}

/// The state after `count` low bits of `bits` are pushed: they go right
/// below the bits already there.
pub open spec fn pushed_state(s: VacuumerState, bits: u64, count: u32) -> VacuumerState {
    VacuumerState {
        cache: push_bits(s.cache, s.fill_level, bits, count),
        fill_level: (s.fill_level + count) as u32,
        output: s.output,
    }
}

/// The chunk that leaves the cache next: its 32 most significant bits.
pub open spec fn next_chunk(s: VacuumerState) -> u32 {
    (s.cache >> 32u64) as u32
}

/// `after` is `before` with its next chunk written out: the chunk leaves
/// the cache, and its four bytes follow the output in the chunk's byte
/// order, little-endian.
pub open spec fn drained_by(before: VacuumerState, after: VacuumerState) -> bool {
    &&& after.cache == before.cache << 32u64
    &&& after.fill_level == before.fill_level - 32
    &&& after.output == before.output + le_bytes_u32(next_chunk(before))
}

/// `after` is `before` with a whole chunk written out where there is one,
/// and `before` itself otherwise.
pub open spec fn drain_result(before: VacuumerState, after: VacuumerState) -> bool {
    if before.fill_level < chunk_bits() {
        after == before
    } else {
        drained_by(before, after)
    }
}

/// The bytes `out` that flushing writes in all once `s1` holds fewer than
/// 32 bits: the output so far where no bits are left, and otherwise the
/// output followed by the last chunk, padded with zero bits, little-endian.
pub open spec fn flushed_from(s1: VacuumerState, out: Seq<u8>) -> bool {
    if s1.fill_level == 0 {
        out == s1.output
    } else {
        let padded = pushed_state(s1, 0, (chunk_bits() - s1.fill_level) as u32);
        out == padded.output + le_bytes_u32(next_chunk(padded))
    }
}

/// How many bits are left after a drain.
pub open spec fn fill_after_drain(s: VacuumerState) -> u32 {
    if s.fill_level >= chunk_bits() {
        (s.fill_level - chunk_bits()) as u32
    } else {
        s.fill_level
    }
}

/// The bytes of `x`, least significant first (what `u32::to_le_bytes`
/// gives).
fn u32_to_le_bytes(x: u32) -> (r: [u8; 4])
    ensures
        r@ == le_bytes_u32(x),
{
    let r = [(x & 0xff) as u8, ((x >> 8) & 0xff) as u8, ((x >> 16) & 0xff) as u8, ((x >> 24) & 0xff) as u8];
    assert(r@ =~= le_bytes_u32(x));
    r
}

/// Writing out the next whole chunk.
pub trait BitVacuumerDefaultDrainImpl: Sized + View<V = VacuumerState> {
    fn drain_impl(&mut self)
        requires
            chunk_bits() <= old(self)@.fill_level <= vacuum_cache_size(),
        ensures
            drained_by(old(self)@, final(self)@),
    ;
}

/// Writing out the next whole chunk, the way the bit order asks for.
pub trait BitVacuumerDrainImpl: Sized + View<V = VacuumerState> {
    fn drain_impl(&mut self)
        requires
            chunk_bits() <= old(self)@.fill_level <= vacuum_cache_size(),
        ensures
            drained_by(old(self)@, final(self)@),
    ;
}

/// Bit orders whose vacuumer writes chunks the default way.
pub trait BitVacuumerUseDefaultDrainImpl {

}

impl BitVacuumerUseDefaultDrainImpl for BitOrderMSB32 {

}

/// Collects bits and writes them out in chunks, in the bit order `T`.
pub struct BitVacuumerBase<T: BitOrderTrait> {
    cache: u64,
    fill_level: u32,
    output: Vec<u8>,
    _phantom_data: PhantomData<T>,
}

/// The vacuumer of 32-bit chunks, most significant bit first, each chunk
/// stored little-endian.
pub type BitVacuumerMSB32 = BitVacuumerBase<BitOrderMSB32>;

impl<T: BitOrderTrait> View for BitVacuumerBase<T> {
    type V = VacuumerState;

    closed spec fn view(&self) -> VacuumerState {
        VacuumerState { cache: self.cache, fill_level: self.fill_level, output: self.output@ }
    }
}

impl<T: BitOrderTrait> BitVacuumerDefaultDrainImpl for BitVacuumerBase<T> {
    fn drain_impl(&mut self) {
        let ghost before = self@;
        // The write-back cache is one 32-bit word, and a chunk is 32 bits,
        // so one chunk fills it.
        let stream_chunk_bitwidth: u32 = 32;
        let old_cache = self.cache;
        let peeked = extract_high_bits(old_cache, stream_chunk_bitwidth);
        assert(peeked == old_cache >> 32u64);
        assert(old_cache >> 32u64 <= 0xffff_ffff) by (bit_vector);
        let chunk: u32 = peeked as u32;
        self.cache = old_cache << 32u64;
        self.fill_level = self.fill_level - stream_chunk_bitwidth;
        // The chunks of this bit order are stored little-endian, whatever
        // the byte order of the host.
        let mut cache: u32 = 0;
        cache = cache | chunk;
        assert(cache == chunk) by (bit_vector)
            requires
                cache == 0u32 | chunk,
        ;
        let bytes = u32_to_le_bytes(cache);
        let ghost c = next_chunk(before);
        proof {
            assert(c == peeked as u32);
        }
        let mut i: usize = 0;
        while i < 4
            invariant
                i <= 4,
                bytes@.len() == 4,
                self@.cache == before.cache << 32u64,
                self@.fill_level == before.fill_level - 32,
                self.output@ == before.output + bytes@.subrange(0, i as int),
            decreases 4 - i,
        {
            self.output.push(bytes[i]);
            assert(bytes@.subrange(0, i + 1) =~= bytes@.subrange(0, i as int).push(bytes@[i as int]));
            i = i + 1;
        }
        assert(bytes@.subrange(0, 4) =~= bytes@);
        assert(self@.cache == before.cache << 32u64);
        assert(self@.fill_level == before.fill_level - 32);
        assert(self@.output == before.output + bytes@);
    }
}

impl<T: BitOrderTrait + BitVacuumerUseDefaultDrainImpl> BitVacuumerDrainImpl for BitVacuumerBase<
    T,
> {
    fn drain_impl(&mut self) {
        BitVacuumerDefaultDrainImpl::drain_impl(self)
    }
}

impl<T: BitOrderTrait> BitVacuumerBase<T> {
    /// Whether no more bits count than the cache is wide.
    pub open spec fn wf(&self) -> bool {
        self@.fill_level <= vacuum_cache_size()
    }

    /// A vacuumer with no bits and no output.
    pub fn new() -> (r: Self)
        ensures
            r.wf(),
            r@ == (VacuumerState { cache: 0, fill_level: 0, output: Seq::empty() }),
    {
        Self { cache: 0, fill_level: 0, output: Vec::new(), _phantom_data: PhantomData }
    }

    /// The bytes written so far.
    pub fn output(&self) -> (r: &Vec<u8>)
        ensures
            r@ == self@.output,
    {
        &self.output
    }

    /// How many bits wait to be written.
    pub fn fill_level(&self) -> (r: u32)
        ensures
            r == self@.fill_level,
    {
        self.fill_level
    }

    /// Adds the low `count` bits of `bits` right below the bits already in
    /// the cache.
    fn cache_push(&mut self, bits: u64, count: u32)
        requires
            old(self)@.fill_level + count <= vacuum_cache_size(),
        ensures
            final(self)@ == pushed_state(old(self)@, bits, count),
    {
        let vacant_bits: u32 = 64 - self.fill_level;
        let empty_bits_gap = vacant_bits - count;
        if count != 0 {
            self.cache = self.cache | (bits << empty_bits_gap);
        }
        self.fill_level = self.fill_level + count;
    }
}

impl<T: BitOrderTrait> BitVacuumerBase<T> where Self: BitVacuumerDrainImpl {
    /// Writes out the next chunk where a whole one waits; leaves fewer than
    /// 32 bits waiting.
    pub fn drain(&mut self)
        requires
            old(self)@.fill_level < 2 * chunk_bits(),
        ensures
            drain_result(old(self)@, final(self)@),
            final(self)@.fill_level == fill_after_drain(old(self)@),
            final(self)@.fill_level < chunk_bits(),
    {
        if self.fill_level < 32 {
            return;  // This does not mean that the cache is empty.
        }
        BitVacuumerDrainImpl::drain_impl(self);
    }

    /// Writes out the next chunk where a whole one waits, then adds the low
    /// `count` bits of `bits` (there may be none).
    pub fn put(&mut self, bits: u64, count: u32)
        requires
            old(self)@.fill_level < 2 * chunk_bits(),
            fill_after_drain(old(self)@) + count <= vacuum_cache_size(),
        ensures
            exists|mid: VacuumerState|
                drain_result(old(self)@, mid) && mid.fill_level == fill_after_drain(old(self)@)
                    && final(self)@ == pushed_state(mid, bits, count),
    {
        self.drain();
        let ghost mid = self@;
        self.cache_push(bits, count);
        assert(drain_result(old(self)@, mid));
    }

    /// Writes out every bit, the last chunk padded with zero bits, and
    /// returns all bytes written.
    pub fn flush(self) -> (r: Vec<u8>)
        requires
            self@.fill_level < 2 * chunk_bits(),
        ensures
            exists|s1: VacuumerState|
                #![trigger drain_result(self@, s1)]
                drain_result(self@, s1) && s1.fill_level == fill_after_drain(self@) && flushed_from(
                    s1,
                    r@,
                ),
    {
        let mut this = self;
        this.drain();
        let ghost s1 = this@;
        if this.fill_level == 0 {
            assert(drain_result(self@, s1) && flushed_from(s1, this.output@));
            return this.output;
        }
        // Pad with zero bits, so that the partial chunk can be drained.
        let pad = 32 - this.fill_level;
        this.cache_push(0, pad);
        assert(this@.fill_level == 32);
        this.drain();
        assert(this@.fill_level == 0);
        assert(drain_result(self@, s1) && flushed_from(s1, this.output@));
        this.output
    }
}

/// `s` holds the pending bits `pending` (read as a number, the oldest bit
/// most significant): `fill_level` of them, at the top of the cache, with
/// only zero bits below.
pub open spec fn holds_pending(s: VacuumerState, pending: nat) -> bool {
    holds_bits(s.cache, s.fill_level, pending)
}

/// Pushing `count` bits that fit in `count` bits appends them to the
/// pending bits.
pub proof fn law_push_appends_bits(s: VacuumerState, pending: nat, bits: u64, count: u32)
    requires
        holds_pending(s, pending),
        s.fill_level + count <= vacuum_cache_size(),
        (bits as nat) < pow2(count as nat),
    ensures
        holds_pending(pushed_state(s, bits, count), pending * pow2(count as nat) + bits as nat),
{
    lemma_push_appends(s.cache, s.fill_level, pending, bits, count);
}

/// Writing out a chunk takes the 32 oldest pending bits, most significant
/// first, and leaves the others pending.
pub proof fn law_drain_takes_oldest_bits(s: VacuumerState, pending: nat, after: VacuumerState)
    requires
        holds_pending(s, pending),
        s.fill_level >= chunk_bits(),
        drained_by(s, after),
    ensures
        next_chunk(s) as nat == pending / pow2((s.fill_level - 32) as nat),
        holds_pending(after, pending % pow2((s.fill_level - 32) as nat)),
{
    lemma_take_top(s.cache, s.fill_level, pending, 32);
    let x = s.cache;
    assert(x >> 32u64 <= 0xffff_ffff) by (bit_vector);
}

/// The value of four bytes read little-endian.
pub open spec fn le_word(b: Seq<u8>) -> nat {
    b[0] as nat + b[1] as nat * 0x100 + b[2] as nat * 0x1_0000 + b[3] as nat * 0x100_0000
}

/// The number that the chunks written to `out` spell, four bytes each, each
/// read little-endian, the first chunk most significant.
pub open spec fn chunks_value(out: Seq<u8>) -> nat
    decreases out.len(),
{
    if out.len() < 4 {
        0
    } else {
        chunks_value(out.take(out.len() - 4)) * pow2(32) + le_word(out.skip(out.len() - 4))
    }
}

/// Every bit put so far, as a number: the bits written out, then the
/// `pending` bits still held.
pub open spec fn bits_value(s: VacuumerState, pending: nat) -> nat {
    chunks_value(s.output) * pow2(s.fill_level as nat) + pending
}

/// The pending bits after a drain of a vacuumer that held `pending`.
pub open spec fn pending_after_drain(s: VacuumerState, pending: nat) -> nat {
    if s.fill_level >= chunk_bits() {
        pending % pow2((s.fill_level - 32) as nat)
    } else {
        pending
    }
}

/// The four bytes of a chunk, read back little-endian, are the chunk.
proof fn lemma_le_word(c: u32)
    ensures
        le_word(le_bytes_u32(c)) == c,
{
    let b = le_bytes_u32(c);
    assert(((c & 0xff) as u8) as nat + (((c >> 8) & 0xff) as u8) as nat * 0x100 + (((c >> 16) & 0xff)
        as u8) as nat * 0x1_0000 + (((c >> 24) & 0xff) as u8) as nat * 0x100_0000 == c)
        by (bit_vector);
}

/// Appending a chunk's four bytes appends the chunk to the written value.
proof fn lemma_chunks_value_push(out: Seq<u8>, c: u32)
    ensures
        chunks_value(out + le_bytes_u32(c)) == chunks_value(out) * pow2(32) + c,
{
    let o = out + le_bytes_u32(c);
    assert(o.take(o.len() - 4) =~= out);
    assert(o.skip(o.len() - 4) =~= le_bytes_u32(c));
    lemma_le_word(c);
}

/// A drain keeps every bit: what was written and what is pending, read
/// together, is unchanged, and the output stays whole chunks.
proof fn lemma_drain_keeps_bits(s: VacuumerState, pending: nat, after: VacuumerState)
    requires
        holds_pending(s, pending),
        drain_result(s, after),
    ensures
        holds_pending(after, pending_after_drain(s, pending)),
        bits_value(after, pending_after_drain(s, pending)) == bits_value(s, pending),
        after.output.len() == s.output.len() + (if s.fill_level >= chunk_bits() { 4int } else { 0 }),
        after.fill_level == fill_after_drain(s),
{
    if s.fill_level >= chunk_bits() {
        law_drain_takes_oldest_bits(s, pending, after);
        let m = (s.fill_level - 32) as nat;
        let c = next_chunk(s);
        let v = chunks_value(s.output);
        lemma_chunks_value_push(s.output, c);
        lemma_pow2_pos(m);
        lemma_pow2_adds(32, m);
        vstd::arithmetic::div_mod::lemma_fundamental_div_mod(pending as int, pow2(m) as int);
        assert(bits_value(after, pending % pow2(m)) == (v * pow2(32) + c) * pow2(m) + pending % pow2(m));
        assert((v * pow2(32) + c) * pow2(m) == v * (pow2(32) * pow2(m)) + c * pow2(m)) by {
            vstd::arithmetic::mul::lemma_mul_is_distributive_add_other_way(
                pow2(m) as int,
                (v * pow2(32)) as int,
                c as int,
            );
            vstd::arithmetic::mul::lemma_mul_is_associative(
                v as int,
                pow2(32) as int,
                pow2(m) as int,
            );
        }
        assert(c * pow2(m) == pow2(m) * (pending / pow2(m))) by {
            vstd::arithmetic::mul::lemma_mul_is_commutative(c as int, pow2(m) as int);
        }
    }
}

/// Putting bits keeps every bit put before and appends the new ones: the
/// bits written and the bits pending, read together, are those before
/// followed by the `count` new bits, and the output stays whole chunks.
pub proof fn law_put_appends_bits(
    s: VacuumerState,
    pending: nat,
    bits: u64,
    count: u32,
    mid: VacuumerState,
    after: VacuumerState,
)
    requires
        holds_pending(s, pending),
        s.output.len() % 4 == 0,
        fill_after_drain(s) + count <= vacuum_cache_size(),
        (bits as nat) < pow2(count as nat),
        drain_result(s, mid),
        mid.fill_level == fill_after_drain(s),
        after == pushed_state(mid, bits, count),
    ensures
        holds_pending(after, pending_after_drain(s, pending) * pow2(count as nat) + bits as nat),
        after.output.len() % 4 == 0,
        bits_value(after, pending_after_drain(s, pending) * pow2(count as nat) + bits as nat)
            == bits_value(s, pending) * pow2(count as nat) + bits as nat,
        after.fill_level == fill_after_drain(s) + count,
        after.output.len() * 8 + after.fill_level == s.output.len() * 8 + s.fill_level + count,
{
    lemma_drain_keeps_bits(s, pending, mid);
    let p1 = pending_after_drain(s, pending);
    law_push_appends_bits(mid, p1, bits, count);
    let v = chunks_value(mid.output);
    let f = mid.fill_level as nat;
    let c = count as nat;
    lemma_pow2_adds(f, c);
    assert(bits_value(after, p1 * pow2(c) + bits as nat) == v * pow2(f + c) + p1 * pow2(c) + bits);
    assert(v * pow2(f + c) + p1 * pow2(c) == (v * pow2(f) + p1) * pow2(c)) by {
        vstd::arithmetic::mul::lemma_mul_is_associative(v as int, pow2(f) as int, pow2(c) as int);
        vstd::arithmetic::mul::lemma_mul_is_distributive_add_other_way(
            pow2(c) as int,
            (v * pow2(f)) as int,
            p1 as int,
        );
    }
}

/// How many zero bits flushing adds to `fill` pending bits, to complete
/// the last chunk.
pub open spec fn padding(fill: u32) -> nat {
    if fill == 0 {
        0
    } else {
        (chunk_bits() - fill) as nat
    }
}

/// Flushing writes out every bit put, in order, followed by just enough
/// zero bits to fill the last chunk.
pub proof fn law_flush_writes_every_bit(
    s: VacuumerState,
    pending: nat,
    s1: VacuumerState,
    out: Seq<u8>,
)
    requires
        holds_pending(s, pending),
        s.output.len() % 4 == 0,
        s.fill_level < 2 * chunk_bits(),
        drain_result(s, s1),
        s1.fill_level == fill_after_drain(s),
        flushed_from(s1, out),
    ensures
        out.len() % 4 == 0,
        out.len() * 8 == s.output.len() * 8 + s.fill_level + padding(fill_after_drain(s)),
        chunks_value(out) == bits_value(s, pending) * pow2(padding(fill_after_drain(s))),
{
    lemma_drain_keeps_bits(s, pending, s1);
    let p1 = pending_after_drain(s, pending);
    let v = chunks_value(s1.output);
    if s1.fill_level == 0 {
        assert(pow2(0) == 1) by {
            vstd::arithmetic::power2::lemma2_to64();
        }
        assert(p1 == 0) by {
            vstd::arithmetic::power2::lemma2_to64();
        }
        vstd::arithmetic::mul::lemma_mul_basics(v as int);
        vstd::arithmetic::mul::lemma_mul_basics(bits_value(s, pending) as int);
    } else {
        let pad = (32 - s1.fill_level) as u32;
        vstd::arithmetic::power2::lemma2_to64();
        law_push_appends_bits(s1, p1, 0, pad);
        let padded = pushed_state(s1, 0, pad);
        let p2 = p1 * pow2(pad as nat);
        assert(p2 + 0 == p2);
        let after = VacuumerState {
            cache: padded.cache << 32u64,
            fill_level: 0,
            output: padded.output + le_bytes_u32(next_chunk(padded)),
        };
        assert(drained_by(padded, after));
        law_drain_takes_oldest_bits(padded, p2, after);
        assert(pow2(0) == 1);
        vstd::arithmetic::div_mod::lemma_div_basics(p2 as int);
        lemma_chunks_value_push(padded.output, next_chunk(padded));
        assert(chunks_value(out) == v * pow2(32) + p2);
        lemma_pow2_adds(s1.fill_level as nat, pad as nat);
        assert(v * pow2(32) + p2 == (v * pow2(s1.fill_level as nat) + p1) * pow2(pad as nat)) by {
            vstd::arithmetic::mul::lemma_mul_is_associative(
                v as int,
                pow2(s1.fill_level as nat) as int,
                pow2(pad as nat) as int,
            );
            vstd::arithmetic::mul::lemma_mul_is_distributive_add_other_way(
                pow2(pad as nat) as int,
                (v * pow2(s1.fill_level as nat)) as int,
                p1 as int,
            );
        }
    }
}

/// The bits of the puts `puts`, each `(bits, count)` giving its `count`
/// low bits, one after another, read as a number.
pub open spec fn puts_value(puts: Seq<(u64, u32)>) -> nat
    decreases puts.len(),
{
    if puts.len() == 0 {
        0
    } else {
        puts_value(puts.drop_last()) * pow2(puts.last().1 as nat) + puts.last().0 as nat
    }
}

/// How many bits the puts `puts` give in all.
pub open spec fn puts_bits(puts: Seq<(u64, u32)>) -> nat
    decreases puts.len(),
{
    if puts.len() == 0 {
        0
    } else {
        puts_bits(puts.drop_last()) + puts.last().1 as nat
    }
}

/// `states` are the vacuumer's states over the puts `puts`, the write-outs
/// that each put begins with in `mids`: it starts empty, and each put's
/// `requires` holds and its `ensures` relates one state to the next.
pub open spec fn put_run(
    states: Seq<VacuumerState>,
    mids: Seq<VacuumerState>,
    puts: Seq<(u64, u32)>,
) -> bool {
    &&& states.len() == puts.len() + 1
    &&& mids.len() == puts.len()
    &&& states[0] == (VacuumerState { cache: 0, fill_level: 0, output: Seq::empty() })
    &&& forall|i: int|
        0 <= i < puts.len() ==> {
            &&& #[trigger] states[i].fill_level < 2 * chunk_bits()
            &&& fill_after_drain(states[i]) + puts[i].1 <= vacuum_cache_size()
            &&& (puts[i].0 as nat) < pow2(puts[i].1 as nat)
            &&& drain_result(states[i], mids[i])
            &&& mids[i].fill_level == fill_after_drain(states[i])
            &&& states[i + 1] == pushed_state(mids[i], puts[i].0, puts[i].1)
        }
}

/// The bits that the vacuumer holds after the first `i` puts of a run.
pub open spec fn run_pending(states: Seq<VacuumerState>, puts: Seq<(u64, u32)>, i: nat) -> nat
    decreases i,
{
    if i == 0 {
        0
    } else {
        pending_after_drain(states[i - 1], run_pending(states, puts, (i - 1) as nat)) * pow2(
            puts[i - 1].1 as nat,
        ) + puts[i - 1].0 as nat
    }
}

/// After the first `i` puts of a run, the bits written and the bits held,
/// read together, are the bits of those puts, and the output is whole
/// chunks.
proof fn lemma_run_prefix(
    states: Seq<VacuumerState>,
    mids: Seq<VacuumerState>,
    puts: Seq<(u64, u32)>,
    i: nat,
)
    requires
        put_run(states, mids, puts),
        i <= puts.len(),
    ensures
        holds_pending(states[i as int], run_pending(states, puts, i)),
        states[i as int].output.len() % 4 == 0,
        bits_value(states[i as int], run_pending(states, puts, i)) == puts_value(puts.take(i as int)),
        states[i as int].output.len() * 8 + states[i as int].fill_level == puts_bits(
            puts.take(i as int),
        ),
    decreases i,
{
    if i == 0 {
        crate::bitstreamflow::law_empty_cache_holds_nothing();
        assert(puts.take(0) =~= Seq::<(u64, u32)>::empty());
        vstd::arithmetic::mul::lemma_mul_basics(pow2(0) as int);
    } else {
        let k = (i - 1) as nat;
        lemma_run_prefix(states, mids, puts, k);
        let s = states[k as int];
        assert(s.fill_level < 2 * chunk_bits());
        law_put_appends_bits(
            s,
            run_pending(states, puts, k),
            puts[k as int].0,
            puts[k as int].1,
            mids[k as int],
            states[i as int],
        );
        assert(puts.take(i as int).drop_last() =~= puts.take(k as int));
        assert(puts.take(i as int).last() == puts[k as int]);
    }
}

/// Every bit put comes out, in order: after a run of puts and a flush, the
/// bytes written are all the bits put, one after another, followed by just
/// enough zero bits to fill the last 32-bit chunk, each chunk stored
/// little-endian.
pub proof fn law_puts_then_flush(
    states: Seq<VacuumerState>,
    mids: Seq<VacuumerState>,
    puts: Seq<(u64, u32)>,
    s1: VacuumerState,
    out: Seq<u8>,
)
    requires
        put_run(states, mids, puts),
        states.last().fill_level < 2 * chunk_bits(),
        drain_result(states.last(), s1),
        s1.fill_level == fill_after_drain(states.last()),
        flushed_from(s1, out),
    ensures
        out.len() % 4 == 0,
        out.len() * 8 == puts_bits(puts) + padding(fill_after_drain(states.last())),
        chunks_value(out) == puts_value(puts) * pow2(padding(fill_after_drain(states.last()))),
{
    let n = puts.len();
    lemma_run_prefix(states, mids, puts, n);
    assert(puts.take(n as int) =~= puts);
    assert(states.last() == states[n as int]);
    law_flush_writes_every_bit(states.last(), run_pending(states, puts, n), s1, out);
}

} // verus!
