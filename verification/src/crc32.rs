//! The checksum primitive stamped on and validated against every chunk.

use vstd::prelude::*;

verus! {

/// The standard CRC-32 value of a byte sequence: initialized to all ones,
/// processed byte by byte, finished with a one's complement. A function of
/// the bytes alone; the contracts of this crate treat it as an opaque name.
pub uninterp spec fn crc32_spec(bytes: Seq<u8>) -> u32;

/// Relies on crc32fast::Hasher (new, update, finalize): the standard CRC-32
/// checksum of the type tag followed by the payload, identical for identical
/// input whatever acceleration path runs inside.
#[verifier::external_body]
pub fn compute_crc(chunk_type: &[u8], chunk_data: &[u8]) -> (crc: u32)
    ensures
        crc == crc32_spec(chunk_type@ + chunk_data@),
{
    let mut hx = crc32fast::Hasher::new();
    hx.update(chunk_type);
    hx.update(chunk_data);

    hx.finalize()
}

} // verus!
