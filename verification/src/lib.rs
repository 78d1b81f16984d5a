//! Bit-level building blocks of a raw image decoder (byte order, bit
//! caches, two-dimensional views) and a small loop-transformation engine
//! that works on token trees.

pub mod endianness;
pub mod bitstream;
pub mod bitstreamflow;
pub mod tokens;
pub mod loop_xform;
pub mod array2d;
pub mod rawdemuxer;
pub mod rawparser;
pub mod bitvacuumer;
