//! The compression collaborator at the decoder's and encoder's boundary: an
//! opaque byte-stream-to-byte-stream transform.

use std::io::Read;
use std::io::Write;
use vstd::prelude::*;

verus! {

/// The compressed stream the collaborator produces for a byte sequence, at
/// this crate's fixed compression settings. A function of the bytes alone.
pub uninterp spec fn deflate_of(bytes: Seq<u8>) -> Seq<u8>;

/// What decompressing a byte sequence yields: the recovered bytes, or
/// nothing when the stream is malformed. A function of the bytes alone.
pub uninterp spec fn inflate_of(bytes: Seq<u8>) -> Option<Seq<u8>>;

/// Relies on flate2::write::ZlibEncoder (new, write_all, finish) at the fixed
/// fast level, writing into an in-memory vector: such a sink never reports a
/// write error and the encoder raises none in plain streaming use, so the
/// stream is always produced. Compression is a function of the input bytes
/// alone, its output is non-empty (a zlib stream opens with a two-byte
/// header), and flate2's own zlib decoder recovers exactly the input from it.
#[verifier::external_body]
pub(crate) fn zlib_compress(data: &[u8]) -> (r: Option<Vec<u8>>)
    ensures
        r is Some,
        r matches Some(v) ==> v@ == deflate_of(data@) && inflate_of(deflate_of(data@)) == Some(
            data@,
        ) && v@.len() >= 1,
{
    let mut encoder = flate2::write::ZlibEncoder::new(Vec::new(), flate2::Compression::fast());
    if encoder.write_all(data).is_err() {
        return None;
    }

    encoder.finish().ok()
}

/// Relies on flate2::read::ZlibDecoder (new, read_to_end): whether a stream
/// decompresses, and to what, is a function of the stream bytes alone; a
/// malformed stream is reported as an error, never as partial output.
#[verifier::external_body]
pub(crate) fn zlib_decompress(data: &[u8]) -> (r: Option<Vec<u8>>)
    ensures
        r matches Some(v) ==> inflate_of(data@) == Some(v@),
        r is None ==> inflate_of(data@) is None,
{
    let mut decoder = flate2::read::ZlibDecoder::new(data);
    let mut out = Vec::new();
    match decoder.read_to_end(&mut out) {
        Ok(_) => Some(out),
        Err(_) => None,
    }
}

} // verus!
