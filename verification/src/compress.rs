//! Gzip framing of byte strings, done by `flate2`.
//!
//! Nothing in here is proved: the two functions at the bottom call the
//! compressor, and the two names above them stand for what it returns.

use flate2::read::GzDecoder;
use flate2::write::GzEncoder;
use flate2::Compression;
use std::io::{Read, Write};
use vstd::prelude::*;

verus! {

/// The gzip stream that `flate2`'s `GzEncoder` produces for `data` at the
/// default compression level, or `None` where it reports an error.
pub uninterp spec fn gzip_encoding(data: Seq<u8>) -> Option<Seq<u8>>;

/// The bytes that `flate2`'s `GzDecoder` reads out of the gzip stream
/// `stream`, or `None` where it reports an error.
pub uninterp spec fn gzip_decoding(stream: Seq<u8>) -> Option<Seq<u8>>;

/// Runs `flate2::write::GzEncoder` over `data` with `Compression::default()`
/// and returns the finished stream.
///
/// Trusted: the result is the encoder's output for these bytes, and the
/// decoder reads from that output the bytes that went in.
#[verifier::external_body]
pub(crate) fn gzip(data: &[u8]) -> (out: Option<Vec<u8>>)
    ensures
        match out {
            Some(stream) => gzip_encoding(data@) == Some(stream@) && gzip_decoding(stream@)
                == Some(data@),
            None => gzip_encoding(data@) is None,
        },
{
    let mut encoder = GzEncoder::new(Vec::new(), Compression::default());
    match encoder.write_all(data) {
        Ok(()) => encoder.finish().ok(),
        Err(_) => None,
    }
}

/// Runs `flate2::read::GzDecoder` over `stream` and reads it to the end.
///
/// Trusted: the result is what the decoder yields for these bytes; a stream
/// it rejects (bad header, truncated data, checksum mismatch) gives `None`.
#[verifier::external_body]
pub(crate) fn gunzip(stream: &[u8]) -> (out: Option<Vec<u8>>)
    ensures
        match out {
            Some(data) => gzip_decoding(stream@) == Some(data@),
            None => gzip_decoding(stream@) is None,
        },
{
    let mut data = Vec::new();
    match GzDecoder::new(stream).read_to_end(&mut data) {
        Ok(_) => Some(data),
        Err(_) => None,
    }
}

} // verus!
