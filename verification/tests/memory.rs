use rawspeed::bitstream::{BitOrder, BitOrderLSB, BitStreamTraits};
use rawspeed::bitstreamflow::{
    extract_high_bits, BitStreamCache, BitStreamCacheBase, BitStreamFlow, BitStreamFlowLowInHighOut,
};
use rawspeed::endianness::{endianness_from_ne_bytes, get_host_endianness, Endianness, SwapBytes};

#[test]
fn swap_bytes_reverses_bytes() {
    assert_eq!(SwapBytes::swap_bytes(0x1234u16), 0x3412);
    assert_eq!(SwapBytes::swap_bytes(0x1234_5678u32), 0x7856_3412);
    assert_eq!(SwapBytes::swap_bytes(0x0102_0304_0506_0708u64), 0x0807_0605_0403_0201);
    assert_eq!(SwapBytes::swap_bytes(SwapBytes::swap_bytes(0xdead_beefu32)), 0xdead_beef);
}

#[test]
fn get_byte_swapped_only_when_asked() {
    assert_eq!(SwapBytes::get_byte_swapped(0x1234u16, false), 0x1234);
    assert_eq!(SwapBytes::get_byte_swapped(0x1234u16, true), 0x3412);
    assert_eq!(SwapBytes::get_byte_swapped(0xaabb_ccddu32, true), 0xddcc_bbaa);
    assert_eq!(SwapBytes::get_byte_swapped(7u64, false), 7);
    assert_eq!(SwapBytes::get_byte_swapped(7u64, true), 7u64 << 56);
}

#[test]
fn host_endianness_matches_the_machine() {
    let expected = if 1u16.to_ne_bytes()[0] == 1 { Endianness::Little } else { Endianness::Big };
    assert_eq!(get_host_endianness(), expected);
    assert_eq!(endianness_from_ne_bytes([1, 0]), Endianness::Little);
    assert_eq!(endianness_from_ne_bytes([0, 1]), Endianness::Big);
}

#[test]
fn lsb_traits() {
    assert_eq!(BitStreamTraits::<BitOrderLSB>::TAG, BitOrder::LSB);
    assert_eq!(BitStreamTraits::<BitOrderLSB>::STREAM_FLOW, BitStreamFlow::LowInHighOut);
    assert!(BitStreamTraits::<BitOrderLSB>::FIXED_SIZE_CHUNKS);
    assert_eq!(BitStreamTraits::<BitOrderLSB>::CHUNK_ENDIANNESS, Endianness::Little);
    assert_eq!(BitStreamTraits::<BitOrderLSB>::MIN_LOAD_STEP_BYTE_MULTIPLE, 1);
}

#[test]
fn extract_high_bits_takes_the_top() {
    assert_eq!(extract_high_bits(0xf000_0000_0000_0001, 4), 0xf);
    assert_eq!(extract_high_bits(0x8000_0000_0000_0000, 1), 1);
    assert_eq!(extract_high_bits(0x1234, 64), 0x1234);
}

#[test]
fn cache_push_peek_skip() {
    type Cache = BitStreamCacheBase<BitStreamFlowLowInHighOut>;
    assert_eq!(Cache::SIZE, 64);
    assert_eq!(Cache::MAX_GET_BITS, 32);
    let mut c = Cache::new();
    assert_eq!(c.peek(64), 0);
    // Three bits go to the very top of the 64-bit cache.
    c.push(0b101, 3);
    assert_eq!(c.peek(64), 0b101 << 61);
    assert_eq!(c.peek(3), 0b101);
    c.push(0b11, 2);
    assert_eq!(c.peek(5), 0b101_11);
    // A push of no bits changes nothing.
    c.push(0xff, 0);
    assert_eq!(c.peek(5), 0b101_11);
    c.skip(3);
    assert_eq!(c.peek(2), 0b11);
    c.push(0b111, 3);
    assert_eq!(c.peek(5), 0b11_111);
    assert_eq!(c.peek(64), 0b11_111 << 59);
}

#[test]
fn cache_first_in_first_out() {
    type Cache = BitStreamCacheBase<BitStreamFlowLowInHighOut>;
    let mut c = Cache::new();
    c.push(1, 1);
    assert_eq!(c.peek(1), 1);
    let mut c = Cache::new();
    c.push(0xdead_beef, 32);
    c.push(0x1234_5678, 32);
    assert_eq!(c.peek(32), 0xdead_beef);
    c.skip(32);
    assert_eq!(c.peek(32), 0x1234_5678);
}

#[test]
fn skipping_twice_is_skipping_the_sum() {
    type Cache = BitStreamCacheBase<BitStreamFlowLowInHighOut>;
    let mut a = Cache::new();
    let mut b = Cache::new();
    a.push(0b1011_0110, 8);
    b.push(0b1011_0110, 8);
    a.skip(2);
    a.skip(3);
    b.skip(5);
    assert_eq!(a.peek(64), b.peek(64));
    assert_eq!(a.peek(3), b.peek(3));
}
