//! What every raw demuxer offers: decoding into a two-dimensional buffer.

use crate::array2d::Array2DRefMut;
use vstd::prelude::*;
use vstd::string::StringExecFns;

verus! {

/// Why a demuxer could not decode.
#[derive(Debug, PartialEq)]
#[non_exhaustive]
pub enum RawDemuxerError {
    DecoderError(String),
}

/// How an error is shown: `RawDemuxerError(DecoderError(message))`.
pub open spec fn demuxer_error_text(e: RawDemuxerError) -> Seq<char> {
    match e {
        RawDemuxerError::DecoderError(error) => "RawDemuxerError(DecoderError("@ + error@ + "))"@,
    }
}

impl RawDemuxerError {
    /// The error as text.
    pub fn to_string(&self) -> (r: String)
        ensures
            r@ == demuxer_error_text(*self),
    {
        match self {
            RawDemuxerError::DecoderError(error) => {
                let mut s = "RawDemuxerError(DecoderError(".to_owned();
                s.append(error.as_str());
                s.append("))");
                s
            },
        }
    }
}

/// A decoder of one raw format.
pub trait RawDemuxer {
    /// Decodes the image into `output`.
    fn decode(&self, output: &mut Array2DRefMut<'_, u16>) -> Result<(), RawDemuxerError>;
}

} // verus!
