//! Bit orders of bit streams, and the properties each of them fixes.

use crate::bitstreamflow::BitStreamFlow;
use crate::endianness::Endianness;
use vstd::prelude::*;

verus! {

/// The order in which the bits of a stream are packed into its bytes.
#[derive(Debug, Copy, Clone, PartialEq, Eq, Structural)]
pub enum BitOrder {
    LSB,
}

/// A type that stands for one bit order.
pub trait BitOrderTrait {

}

/// The properties of the bit order `T`.
pub struct BitStreamTraits<T: BitOrderTrait>(pub T);

/// The least-significant-bit-first order.
pub struct BitOrderLSB;

impl BitOrderTrait for BitOrderLSB {

}

/// The order in which 32-bit chunks hold the bits most significant first.
pub struct BitOrderMSB32;

impl BitOrderTrait for BitOrderMSB32 {

}

impl BitStreamTraits<BitOrderLSB> {
    pub const TAG: BitOrder = BitOrder::LSB;

    pub const STREAM_FLOW: BitStreamFlow = BitStreamFlow::LowInHighOut;

    pub const FIXED_SIZE_CHUNKS: bool = true;

    pub const CHUNK_ENDIANNESS: Endianness = Endianness::Little;

    pub const MIN_LOAD_STEP_BYTE_MULTIPLE: i32 = 1;
}

} // verus!
