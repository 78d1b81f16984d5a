//! Byte order of multi-byte integers.

use vstd::prelude::*;

verus! {

/// The two byte orders a machine or a file format can use.
#[derive(Debug, Copy, Clone, PartialEq, Eq, Structural)]
pub enum Endianness {
    Little,
    Big,
}

/// Little-endian bytes of a 16-bit value: least significant byte first.
pub open spec fn le_bytes_u16(x: u16) -> Seq<u8> {
    seq![(x & 0xff) as u8, ((x >> 8) & 0xff) as u8]
}

/// Little-endian bytes of a 32-bit value: least significant byte first.
pub open spec fn le_bytes_u32(x: u32) -> Seq<u8> {
    seq![
        (x & 0xff) as u8,
        ((x >> 8) & 0xff) as u8,
        ((x >> 16) & 0xff) as u8,
        ((x >> 24) & 0xff) as u8,
    ]
}

/// Little-endian bytes of a 64-bit value: least significant byte first.
pub open spec fn le_bytes_u64(x: u64) -> Seq<u8> {
    seq![
        (x & 0xff) as u8,
        ((x >> 8) & 0xff) as u8,
        ((x >> 16) & 0xff) as u8,
        ((x >> 24) & 0xff) as u8,
        ((x >> 32) & 0xff) as u8,
        ((x >> 40) & 0xff) as u8,
        ((x >> 48) & 0xff) as u8,
        ((x >> 56) & 0xff) as u8,
    ]
}

/// Two 16-bit values with the same bytes are the same value.
pub proof fn lemma_le_bytes_u16_injective(a: u16, b: u16)
    requires
        le_bytes_u16(a) == le_bytes_u16(b),
    ensures
        a == b,
{
    assert(le_bytes_u16(a)[0] == le_bytes_u16(b)[0] && le_bytes_u16(a)[1] == le_bytes_u16(b)[1]);
    assert(((a & 0xff) as u8 == (b & 0xff) as u8 && ((a >> 8) & 0xff) as u8 == ((b >> 8) & 0xff) as u8)
        ==> a == b) by (bit_vector);
}

/// Two 32-bit values with the same bytes are the same value.
pub proof fn lemma_le_bytes_u32_injective(a: u32, b: u32)
    requires
        le_bytes_u32(a) == le_bytes_u32(b),
    ensures
        a == b,
{
    let (sa, sb) = (le_bytes_u32(a), le_bytes_u32(b));
    assert(sa[0] == sb[0] && sa[1] == sb[1] && sa[2] == sb[2] && sa[3] == sb[3]);
    assert(((a & 0xff) as u8 == (b & 0xff) as u8 && ((a >> 8) & 0xff) as u8 == ((b >> 8) & 0xff) as u8
        && ((a >> 16) & 0xff) as u8 == ((b >> 16) & 0xff) as u8 && ((a >> 24) & 0xff) as u8 == ((b
        >> 24) & 0xff) as u8) ==> a == b) by (bit_vector);
}

/// Two 64-bit values with the same bytes are the same value.
pub proof fn lemma_le_bytes_u64_injective(a: u64, b: u64)
    requires
        le_bytes_u64(a) == le_bytes_u64(b),
    ensures
        a == b,
{
    let (sa, sb) = (le_bytes_u64(a), le_bytes_u64(b));
    assert(sa[0] == sb[0] && sa[1] == sb[1] && sa[2] == sb[2] && sa[3] == sb[3] && sa[4] == sb[4]
        && sa[5] == sb[5] && sa[6] == sb[6] && sa[7] == sb[7]);
    assert(((a & 0xff) as u8 == (b & 0xff) as u8 && ((a >> 8) & 0xff) as u8 == ((b >> 8) & 0xff) as u8
        && ((a >> 16) & 0xff) as u8 == ((b >> 16) & 0xff) as u8 && ((a >> 24) & 0xff) as u8 == ((b
        >> 24) & 0xff) as u8 && ((a >> 32) & 0xff) as u8 == ((b >> 32) & 0xff) as u8 && ((a >> 40)
        & 0xff) as u8 == ((b >> 40) & 0xff) as u8 && ((a >> 48) & 0xff) as u8 == ((b >> 48) & 0xff) as u8
        && ((a >> 56) & 0xff) as u8 == ((b >> 56) & 0xff) as u8) ==> a == b) by (bit_vector);
}

/// Swapping the bytes of a 16-bit value twice gives the value back.
pub proof fn law_swap_bytes_twice_u16(x: u16, once: u16, twice: u16)
    requires
        once.le_bytes() == x.le_bytes().reverse(),
        twice.le_bytes() == once.le_bytes().reverse(),
    ensures
        twice == x,
{
    assert(le_bytes_u16(twice) =~= le_bytes_u16(x));
    lemma_le_bytes_u16_injective(twice, x);
}

/// Swapping the bytes of a 32-bit value twice gives the value back.
pub proof fn law_swap_bytes_twice_u32(x: u32, once: u32, twice: u32)
    requires
        once.le_bytes() == x.le_bytes().reverse(),
        twice.le_bytes() == once.le_bytes().reverse(),
    ensures
        twice == x,
{
    assert(le_bytes_u32(twice) =~= le_bytes_u32(x));
    lemma_le_bytes_u32_injective(twice, x);
}

/// Swapping the bytes of a 64-bit value twice gives the value back.
pub proof fn law_swap_bytes_twice_u64(x: u64, once: u64, twice: u64)
    requires
        once.le_bytes() == x.le_bytes().reverse(),
        twice.le_bytes() == once.le_bytes().reverse(),
    ensures
        twice == x,
{
    assert(le_bytes_u64(twice) =~= le_bytes_u64(x));
    lemma_le_bytes_u64_injective(twice, x);
}

/// The byte order in which a machine stores `1u16`, as seen in its two
/// bytes of memory.
pub open spec fn endianness_of_ne_bytes(ne: Seq<u8>) -> Endianness {
    if ne == seq![1u8, 0u8] {
        Endianness::Little
    } else {
        Endianness::Big
    }
}

/// How a value of the integer type `self` is laid out in memory, least
/// significant byte first.
pub trait SwapBytes: Sized {
    spec fn le_bytes(self) -> Seq<u8>;

    /// The value whose bytes are those of `self` in reverse order.
    fn swap_bytes(self) -> (r: Self)
        ensures
            r.le_bytes() == self.le_bytes().reverse(),
    ;

    /// `self` with its bytes reversed when `cond` holds, `self` otherwise.
    fn get_byte_swapped(self, cond: bool) -> (r: Self)
        ensures
            cond ==> r.le_bytes() == self.le_bytes().reverse(),
            !cond ==> r == self,
    ;
}

impl SwapBytes for u16 {
    open spec fn le_bytes(self) -> Seq<u8> {
        le_bytes_u16(self)
    }

    fn swap_bytes(self) -> (r: u16) {
        let x = self;
        let r: u16 = ((x & 0xff) << 8) | (x >> 8);
        assert((r & 0xff) as u8 == ((x >> 8) & 0xff) as u8 && ((r >> 8) & 0xff) as u8 == (x
            & 0xff) as u8) by (bit_vector)
            requires
                r == ((x & 0xff) << 8) | (x >> 8),
        ;
        assert(le_bytes_u16(r) =~= le_bytes_u16(x).reverse());
        r
    }

    fn get_byte_swapped(self, cond: bool) -> (r: u16) {
        if !cond {
            self
        } else {
            SwapBytes::swap_bytes(self)
        }
    }
}

impl SwapBytes for u32 {
    open spec fn le_bytes(self) -> Seq<u8> {
        le_bytes_u32(self)
    }

    fn swap_bytes(self) -> (r: u32) {
        let x = self;
        let r: u32 = ((x & 0xff) << 24) | ((x & 0xff00) << 8) | ((x >> 8) & 0xff00) | (x >> 24);
        assert({
            &&& (r & 0xff) as u8 == ((x >> 24) & 0xff) as u8
            &&& ((r >> 8) & 0xff) as u8 == ((x >> 16) & 0xff) as u8
            &&& ((r >> 16) & 0xff) as u8 == ((x >> 8) & 0xff) as u8
            &&& ((r >> 24) & 0xff) as u8 == (x & 0xff) as u8
        }) by (bit_vector)
            requires
                r == ((x & 0xff) << 24) | ((x & 0xff00) << 8) | ((x >> 8) & 0xff00) | (x >> 24),
        ;
        assert(le_bytes_u32(r) =~= le_bytes_u32(x).reverse());
        r
    }

    fn get_byte_swapped(self, cond: bool) -> (r: u32) {
        if !cond {
            self
        } else {
            SwapBytes::swap_bytes(self)
        }
    }
}

impl SwapBytes for u64 {
    open spec fn le_bytes(self) -> Seq<u8> {
        le_bytes_u64(self)
    }

    fn swap_bytes(self) -> (r: u64) {
        let x = self;
        let lo: u64 = ((x & 0xff) << 56) | ((x & 0xff00) << 40) | ((x & 0xff0000) << 24) | ((x
            & 0xff000000) << 8);
        let hi: u64 = ((x >> 8) & 0xff000000) | ((x >> 24) & 0xff0000) | ((x >> 40) & 0xff00) | (x
            >> 56);
        let r: u64 = lo | hi;
        assert({
            &&& (r & 0xff) as u8 == ((x >> 56) & 0xff) as u8
            &&& ((r >> 8) & 0xff) as u8 == ((x >> 48) & 0xff) as u8
            &&& ((r >> 16) & 0xff) as u8 == ((x >> 40) & 0xff) as u8
            &&& ((r >> 24) & 0xff) as u8 == ((x >> 32) & 0xff) as u8
            &&& ((r >> 32) & 0xff) as u8 == ((x >> 24) & 0xff) as u8
            &&& ((r >> 40) & 0xff) as u8 == ((x >> 16) & 0xff) as u8
            &&& ((r >> 48) & 0xff) as u8 == ((x >> 8) & 0xff) as u8
            &&& ((r >> 56) & 0xff) as u8 == (x & 0xff) as u8
        }) by (bit_vector)
            requires
                lo == ((x & 0xff) << 56) | ((x & 0xff00) << 40) | ((x & 0xff0000) << 24) | ((x
                    & 0xff000000) << 8),
                hi == ((x >> 8) & 0xff000000) | ((x >> 24) & 0xff0000) | ((x >> 40) & 0xff00) | (x
                    >> 56),
                r == lo | hi,
        ;
        assert(le_bytes_u64(r) =~= le_bytes_u64(x).reverse());
        r
    }

    fn get_byte_swapped(self, cond: bool) -> (r: u64) {
        if !cond {
            self
        } else {
            SwapBytes::swap_bytes(self)
        }
    }
}

/// The byte order of the machine the code runs on, as vstd abstracts it.
pub open spec fn host_endianness() -> Endianness {
    match vstd::endian::endianness() {
        vstd::endian::Endian::Little => Endianness::Little,
        vstd::endian::Endian::Big => Endianness::Big,
    }
}

/// The two bytes of `1u16` in the machine's own byte order: `[1, 0]` on a
/// little-endian machine, `[0, 1]` on a big-endian one.
pub open spec fn native_bytes_of_one() -> Seq<u8> {
    if host_endianness() == Endianness::Little {
        seq![1u8, 0u8]
    } else {
        seq![0u8, 1u8]
    }
}

/// The two bytes of `1u16` in the machine's own byte order
/// (`u16::to_ne_bytes`). Its documentation says that the result is the
/// memory representation in native byte order: the little-endian bytes on a
/// little-endian machine, the big-endian ones on a big-endian machine.
#[verifier::external_body]
fn ne_bytes_of_one() -> (r: [u8; 2])
    ensures
        r@ == seq![1u8, 0u8] || r@ == seq![0u8, 1u8],
        r@ == native_bytes_of_one(),
{
    1u16.to_ne_bytes()
}

/// The byte order that the native bytes `ne` of `1u16` reveal.
pub fn endianness_from_ne_bytes(ne: [u8; 2]) -> (r: Endianness)
    ensures
        r == endianness_of_ne_bytes(ne@),
{
    if ne[0] == 1 && ne[1] == 0 {
        assert(ne@ =~= seq![1u8, 0u8]);
        Endianness::Little
    } else {
        Endianness::Big
    }
}

/// The byte order of the machine this code runs on.
pub fn get_host_endianness() -> (r: Endianness)
    ensures
        exists|ne: Seq<u8>|
            (ne == seq![1u8, 0u8] || ne == seq![0u8, 1u8]) && r == endianness_of_ne_bytes(ne),
        r == endianness_of_ne_bytes(native_bytes_of_one()),
        r == host_endianness(),
{
    let ne = ne_bytes_of_one();
    endianness_from_ne_bytes(ne)
}

/// The host's byte order is the one that the host's own bytes of `1u16`
/// reveal: little-endian exactly when `1u16` is stored as `[1, 0]`.
pub proof fn law_host_endianness_is_that_of_its_bytes()
    ensures
        endianness_of_ne_bytes(native_bytes_of_one()) == host_endianness(),
        host_endianness() == Endianness::Little <==> native_bytes_of_one() == seq![1u8, 0u8],
{
    if host_endianness() != Endianness::Little {
        assert(seq![0u8, 1u8][0] != seq![1u8, 0u8][0]);
    }
}

} // verus!
