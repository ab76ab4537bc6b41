//! Compression of payloads before they are stored.

use vstd::prelude::*;
use vstd::slice::slice_to_vec;
use crate::cache::entry::CacheError;

verus! {

#[verifier::external_type_specification]
#[verifier::external_body]
pub struct ExIoError(std::io::Error);

/// Compression level for stored payloads.
pub const COMPRESSION_LEVEL: i32 = 3;

/// The zstd frame that compressing `data` at `level` gives.
pub uninterp spec fn zstd_frame(data: Seq<u8>, level: i32) -> Seq<u8>;

/// The compressor can take `len` bytes: the buffer that it allocates for
/// the worst case, `len + len / 256 + 64` bytes, is within what can be
/// allocated.
pub open spec fn compressible(len: nat) -> bool {
    len + len / 256 + 64 <= isize::MAX
}

/// `zstd::bulk::compress`: a fresh compressor at `level` compresses `data`
/// into one frame. A result that is `Ok` holds that frame; when the call
/// fails is left open.
#[verifier::external_body]
pub(crate) fn zstd_compress(data: &[u8], level: i32) -> (compressed: Result<Vec<u8>, std::io::Error>)
    requires
        compressible(data@.len()),
    ensures
        compressed matches Ok(frame) ==> frame@ == zstd_frame(data@, level),
{
    zstd::bulk::compress(data, level)
}

/// The bytes that decoding the zstd frames in `frames` gives.
pub uninterp spec fn zstd_content(frames: Seq<u8>) -> Seq<u8>;

/// `zstd::stream::decode_all`: reads `frames` as zstd frames and decodes
/// them. A result that is `Ok` holds the decoded bytes; when the call fails
/// is left open.
#[verifier::external_body]
pub(crate) fn zstd_decode(frames: &[u8]) -> (decoded: Result<Vec<u8>, std::io::Error>)
    ensures
        decoded matches Ok(content) ==> content@ == zstd_content(frames@),
{
    zstd::stream::decode_all(frames)
}

/// The payload that was stored as `stored`: the bytes themselves where
/// payloads are stored without compression, and with it what decoding them
/// gives, or an error where they do not decode.
pub fn open_payload(stored: &[u8], compressed: bool) -> (payload: Result<Vec<u8>, CacheError>)
    ensures
        match payload {
            Ok(bytes) => bytes@ == (if compressed {
                zstd_content(stored@)
            } else {
                stored@
            }),
            Err(error) => compressed && error == CacheError::Decompression,
        },
{
    if !compressed {
        return Ok(slice_to_vec(stored));
    }
    match zstd_decode(stored) {
        Ok(content) => Ok(content),
        Err(_) => Err(CacheError::Decompression),
    }
}

/// What is stored for `data`: the bytes themselves without compression, and
/// with it their zstd frame, or an error where the compressor cannot take
/// them or fails.
pub fn compress_payload(data: &[u8], compress: bool) -> (payload: Result<Vec<u8>, CacheError>)
    ensures
        match payload {
            Ok(bytes) => bytes@ == (if compress {
                zstd_frame(data@, COMPRESSION_LEVEL)
            } else {
                data@
            }),
            Err(error) => compress && error == CacheError::Compression,
        },
        compress && !compressible(data@.len()) ==> payload.is_err(),
{
    if !compress {
        return Ok(slice_to_vec(data));
    }
    let len: u128 = data.len() as u128;
    if len + len / 256 + 64 > isize::MAX as u128 {
        return Err(CacheError::Compression);
    }
    match zstd_compress(data, COMPRESSION_LEVEL) {
        Ok(frame) => Ok(frame),
        Err(_) => Err(CacheError::Compression),
    }
}

} // verus!
