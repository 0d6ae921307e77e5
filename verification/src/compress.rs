//! The compression stage: the accumulated uncompressed stream is run through
//! the Zstandard codec with its exact size pledged up front, so the produced
//! frame's header records the uncompressed length.

use std::io::Write;
use vstd::prelude::*;

verus! {

/// The compressor could not be set up or failed while consuming the payload.
#[derive(Clone, Copy, Debug, PartialEq, Eq, Structural)]
pub struct CompressError;

/// The Zstandard frame that compressing `payload` at the default level
/// produces: a pure function of the payload bytes.
pub uninterp spec fn zstd_frame_of(payload: Seq<u8>) -> Seq<u8>;

/// The uncompressed length recorded in the frame's header.
pub uninterp spec fn zstd_frame_content_size(frame: Seq<u8>) -> int;

/// Relies on zstd's stream encoder (`zstd::stream::Encoder`: `new` at the
/// default level, `set_pledged_src_size`, `include_contentsize`, `write_all`,
/// `finish`): single-threaded compression at a fixed level is a function of
/// the input bytes alone, and with the source size pledged and the
/// content-size flag enabled the frame header records the exact uncompressed
/// length.
#[verifier::external_body]
fn zstd_compress_sized(payload: &Vec<u8>) -> (r: Result<Vec<u8>, CompressError>)
    ensures
        r matches Ok(frame) ==> frame@ == zstd_frame_of(payload@) && zstd_frame_content_size(
            frame@,
        ) == payload@.len(),
{
    let mut encoder = match zstd::stream::Encoder::new(Vec::new(), 0) {
        Ok(encoder) => encoder,
        Err(_) => return Err(CompressError),
    };
    let configured = encoder
        .set_pledged_src_size(Some(payload.len() as u64))
        .and(encoder.include_contentsize(true))
        .and(encoder.write_all(payload.as_slice()));
    match configured.and(encoder.finish()) {
        Ok(frame) => Ok(frame),
        Err(_) => Err(CompressError),
    }
}

/// Compress the accumulated stream into one finalized Zstandard frame whose
/// header records the stream's exact byte length.
pub fn compress_level(payload: &Vec<u8>) -> (r: Result<Vec<u8>, CompressError>)
    ensures
        r matches Ok(frame) ==> frame@ == zstd_frame_of(payload@) && zstd_frame_content_size(
            frame@,
        ) == payload@.len(),
{
    zstd_compress_sized(payload)
}

} // verus!
