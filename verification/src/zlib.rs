//! Compression of stored bytes, done by `flate2`.

use flate2::read::ZlibDecoder;
use flate2::write::ZlibEncoder;
use flate2::Compression;
use std::io::{Read, Write};
use vstd::prelude::*;

verus! {

/// The zlib stream that the encoder makes of `data` at its default level,
/// where it makes one.
pub uninterp spec fn zlib_deflated(data: Seq<u8>) -> Option<Seq<u8>>;

/// What the decoder reads out of `stream`, where it accepts it.
pub uninterp spec fn zlib_inflated(stream: Seq<u8>) -> Option<Seq<u8>>;

/// Compresses `data` with `flate2::write::ZlibEncoder` at
/// `Compression::default()` (`write_all`, then `finish`). The encoder
/// either fails or hands out the stream named `zlib_deflated`, and such a
/// stream is one that the decoder reads back as `data`.
#[verifier::external_body]
pub(crate) fn deflate(data: &[u8]) -> (stream: Result<Vec<u8>, std::io::Error>)
    ensures
        match zlib_deflated(data@) {
            Some(z) => stream matches Ok(v) && v@ == z && zlib_inflated(z) == Some(data@),
            None => stream is Err,
        },
{
    let mut zlib = ZlibEncoder::new(Vec::new(), Compression::default());
    zlib.write_all(data)?;
    zlib.finish()
}

/// Decompresses `stream` with `flate2::read::ZlibDecoder` (`read_to_end`).
/// The decoder either fails or hands out the bytes named `zlib_inflated`.
#[verifier::external_body]
pub(crate) fn inflate(stream: &[u8]) -> (data: Result<Vec<u8>, std::io::Error>)
    ensures
        match zlib_inflated(stream@) {
            Some(bytes) => data matches Ok(d) && d@ == bytes,
            None => data is Err,
        },
{
    let mut data = Vec::new();
    ZlibDecoder::new(stream).read_to_end(&mut data)?;
    Ok(data)
}

} // verus!
