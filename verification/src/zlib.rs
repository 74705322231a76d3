//! Zlib streams, as `flate2` reads and writes them.

use vstd::prelude::*;

verus! {

/// The bytes a zlib stream inflates to, or `None` when `data` does not hold a
/// well-formed zlib stream.
pub uninterp spec fn zlib_inflate(data: Seq<u8>) -> Option<Seq<u8>>;

/// The zlib stream that `flate2` writes for `data` at its fast level.
pub uninterp spec fn zlib_deflate_fast(data: Seq<u8>) -> Seq<u8>;

/// `flate2::read::ZlibDecoder` over `data`, read to the end of the stream:
/// the inflated bytes, or `None` when the decoder fails. The whole stream is
/// inflated, so a stream damaged after the bytes a caller needs fails too.
#[verifier::external_body]
pub(crate) fn zlib_decompress(data: &[u8]) -> (r: Option<Vec<u8>>)
    ensures
        match r {
            Some(v) => zlib_inflate(data@) == Some(v@),
            None => zlib_inflate(data@) is None,
        },
{
    let mut out = Vec::new();
    match std::io::Read::read_to_end(&mut flate2::read::ZlibDecoder::new(data), &mut out) {
        Ok(_) => Some(out),
        Err(_) => None,
    }
}

/// `flate2::write::ZlibEncoder` at `Compression::fast()` over a `Vec`, with
/// all of `data` written and the stream finished. Writing into a `Vec` does
/// not fail, so the encoder always hands back its stream, and the stream
/// inflates back to `data`, as zlib is lossless.
#[verifier::external_body]
pub(crate) fn zlib_compress_fast(data: &[u8]) -> (r: Option<Vec<u8>>)
    ensures
        r is Some,
        r matches Some(v) ==> v@ == zlib_deflate_fast(data@) && zlib_inflate(v@) == Some(data@),
{
    let mut z = flate2::write::ZlibEncoder::new(Vec::new(), flate2::Compression::fast());
    match std::io::Write::write_all(&mut z, data) {
        Ok(()) => {},
        Err(_) => return None,
    }
    match z.finish() {
        Ok(v) => Some(v),
        Err(_) => None,
    }
}

} // verus!
