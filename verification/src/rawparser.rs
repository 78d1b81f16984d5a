//! Choosing the demuxer for a raw file.

use crate::rawdemuxer::RawDemuxer;
use vstd::prelude::*;

verus! {

/// Why no demuxer could be had.
#[derive(Debug, PartialEq)]
#[non_exhaustive]
pub enum RawParserError {
    DecoderError(String),
}

/// The entry point for reading raw files.
#[derive(Debug)]
#[non_exhaustive]
pub struct RawParser;

impl RawParser {
    /// The demuxer that a format's constructor made of the input, with the
    /// request for the output buffer it needs; the constructor's message
    /// becomes a decoder error.
    pub fn get_decoder<D: RawDemuxer, R>(demuxed: Result<(D, R), String>) -> (r: Result<
        (Box<D>, R),
        RawParserError,
    >)
        ensures
            match demuxed {
                Ok((d, req)) => r matches Ok((bd, rr)) && *bd == d && rr == req,
                Err(s) => r matches Err(RawParserError::DecoderError(m)) && m == s,
            },
    {
        match demuxed {
            Ok((d, r)) => {
                let d = Box::new(d);
                Ok((d, r))
            },
            Err(s) => Err(RawParserError::DecoderError(s)),
        }
    }
}

} // verus!
