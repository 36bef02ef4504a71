//! Compressed blocks: the file table of a multi-file archive and the content
//! of each entry are zlib streams.
use flate2::read::ZlibDecoder;
use std::io::Read;
use vstd::prelude::*;

verus! {

/// The bytes that `flate2`'s zlib decoder reads out of a source that holds
/// `stream`, or `None` where reading to the end fails. The decoder stops at
/// the end marker of the stream, so bytes that follow it do not count.
pub uninterp spec fn zlib_inflated(stream: Seq<u8>) -> Option<Seq<u8>>;

/// The bytes in the outcome of an inflation.
pub open spec fn bytes_view(outcome: Option<Vec<u8>>) -> Option<Seq<u8>> {
    match outcome {
        Some(bytes) => Some(bytes@),
        None => None,
    }
}

/// Inflates the zlib stream that starts at the front of `stream`.
///
/// Not proved: the body wraps the slice in `flate2::read::ZlibDecoder::new`
/// and drains it with `read_to_end`. The contract claims only that the
/// outcome is the one [`zlib_inflated`] stands for.
#[verifier::external_body]
pub(crate) fn inflate(stream: &[u8]) -> (r: Option<Vec<u8>>)
    ensures
        match r {
            Some(bytes) => zlib_inflated(stream@) == Some(bytes@),
            None => zlib_inflated(stream@) is None,
        },
{
    let mut decoder = ZlibDecoder::new(stream);
    let mut bytes = Vec::new();
    match decoder.read_to_end(&mut bytes) {
        Ok(_) => Some(bytes),
        Err(_) => None,
    }
}

} // verus!
