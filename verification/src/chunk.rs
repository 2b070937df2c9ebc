//! Serialization of single chunks: length prefix, four-byte tag, payload,
//! and checksum trailer, exactly as the parser reads them back.

use crate::compress::deflate_of;
use crate::compress::inflate_of;
use crate::compress::zlib_compress;
use crate::crc32::compute_crc;
use crate::crc32::crc32_spec;
use crate::decoder::be_u32;
use crate::decoder::ihdr_spec;
use crate::grammar::EncodeError;
use crate::grammar::ImageHeader;
use vstd::prelude::*;

verus! {

/// The four bytes of a 32-bit value, most significant first.
pub open spec fn be_bytes_u32(v: u32) -> Seq<u8> {
    seq![
        (v / 0x100_0000) as u8,
        ((v / 0x1_0000) % 0x100) as u8,
        ((v / 0x100) % 0x100) as u8,
        (v % 0x100) as u8,
    ]
}

/// Reading back the four big-endian bytes of a value recovers the value.
pub proof fn lemma_be_u32_roundtrip(v: u32)
    ensures
        be_bytes_u32(v).len() == 4,
        be_u32(be_bytes_u32(v), 0) == v,
{
    let b = be_bytes_u32(v);
    assert(b[0] == (v / 0x100_0000) as u8);
    assert(b[1] == ((v / 0x1_0000) % 0x100) as u8);
    assert(b[2] == ((v / 0x100) % 0x100) as u8);
    assert(b[3] == (v % 0x100) as u8);
    assert((v as int / 0x100_0000) * 0x100_0000 + (v as int / 0x1_0000 % 0x100) * 0x1_0000 + (
    v as int / 0x100 % 0x100) * 0x100 + v as int % 0x100 == v as int) by (nonlinear_arith);
}

/// One serialized chunk: `length(4, big-endian) ++ tag(4) ++ payload ++
/// crc32(tag ++ payload)(4, big-endian)`.
pub open spec fn chunk_bytes(tag: Seq<u8>, data: Seq<u8>) -> Seq<u8> {
    be_bytes_u32(data.len() as u32) + tag + data + be_bytes_u32(crc32_spec(tag + data))
}

/// The fields the parser reads out of a serialized chunk that stands
/// between a prefix and a suffix.
pub proof fn lemma_chunk_fields(prefix: Seq<u8>, tag: Seq<u8>, data: Seq<u8>, suffix: Seq<u8>)
    requires
        tag.len() == 4,
        data.len() <= 0xffff_ffff,
    ensures
        ({
            let s = prefix + chunk_bytes(tag, data) + suffix;
            let pos = prefix.len() as int;
            &&& be_u32(s, pos) == data.len()
            &&& s.subrange(pos + 4, pos + 8) == tag
            &&& s.subrange(pos + 8, pos + 8 + data.len()) == data
            &&& be_u32(s, pos + 8 + data.len()) == crc32_spec(tag + data)
            &&& s.len() == pos + 12 + data.len() + suffix.len()
        }),
{
    let n = data.len() as int;
    let cb = chunk_bytes(tag, data);
    let s = prefix + cb + suffix;
    let pos = prefix.len() as int;
    assert(cb.len() == 12 + n);
    assert forall|j: int| 0 <= j < 12 + n implies s[pos + j] == cb[j] by {
        assert((prefix + cb)[pos + j] == cb[j]);
        assert(s[pos + j] == (prefix + cb)[pos + j]);
    }
    let lenb = be_bytes_u32(n as u32);
    let crcb = be_bytes_u32(crc32_spec(tag + data));
    assert(cb[0] == lenb[0] && cb[1] == lenb[1] && cb[2] == lenb[2] && cb[3] == lenb[3]);
    assert(s[pos] == cb[0] && s[pos + 1] == cb[1] && s[pos + 2] == cb[2] && s[pos + 3] == cb[3]);
    lemma_be_u32_roundtrip(n as u32);
    assert(be_u32(s, pos) == be_u32(lenb, 0));
    assert forall|j: int| 0 <= j < 4 implies s.subrange(pos + 4, pos + 8)[j] == tag[j] by {
        assert(s[pos + 4 + j] == cb[4 + j]);
        assert(cb[4 + j] == tag[j]);
    }
    assert(s.subrange(pos + 4, pos + 8) =~= tag);
    assert forall|j: int| 0 <= j < n implies s.subrange(pos + 8, pos + 8 + n)[j] == data[j] by {
        assert(s[pos + 8 + j] == cb[8 + j]);
        assert(cb[8 + j] == data[j]);
    }
    assert(s.subrange(pos + 8, pos + 8 + n) =~= data);
    assert(cb[8 + n] == crcb[0] && cb[8 + n + 1] == crcb[1] && cb[8 + n + 2] == crcb[2] && cb[8 + n
        + 3] == crcb[3]);
    assert(s[pos + 8 + n] == cb[8 + n] && s[pos + 8 + n + 1] == cb[8 + n + 1] && s[pos + 8 + n + 2]
        == cb[8 + n + 2] && s[pos + 8 + n + 3] == cb[8 + n + 3]);
    lemma_be_u32_roundtrip(crc32_spec(tag + data));
    assert(be_u32(s, pos + 8 + n) == be_u32(crcb, 0));
}

/// Append the four big-endian bytes of a value.
pub(crate) fn push_be_u32(out: &mut Vec<u8>, v: u32)
    ensures
        final(out)@ == old(out)@ + be_bytes_u32(v),
{
    out.push((v / 0x100_0000) as u8);
    out.push(((v / 0x1_0000) % 0x100) as u8);
    out.push(((v / 0x100) % 0x100) as u8);
    out.push((v % 0x100) as u8);
    proof {
        assert(out@ =~= old(out)@ + be_bytes_u32(v));
    }
}

/// Append one serialized chunk: its length, tag, payload, and the checksum
/// computed over tag and payload.
pub(crate) fn write_chunk(out: &mut Vec<u8>, tag: &[u8], data: &[u8])
    requires
        tag@.len() == 4,
        data@.len() <= 0xffff_ffff,
    ensures
        final(out)@ == old(out)@ + chunk_bytes(tag@, data@),
{
    push_be_u32(out, data.len() as u32);
    out.extend_from_slice(tag);
    out.extend_from_slice(data);
    let crc = compute_crc(tag, data);
    push_be_u32(out, crc);
    proof {
        assert(out@ =~= old(out)@ + chunk_bytes(tag@, data@));
    }
}

/// The thirteen-byte payload of a header chunk.
pub open spec fn ihdr_payload(h: ImageHeader) -> Seq<u8> {
    be_bytes_u32(h.width) + be_bytes_u32(h.height) + seq![
        h.bit_depth,
        h.color_type.spec_to_u8(),
        h.compression_method,
        h.filter_method,
        if h.interlace_method {
            1u8
        } else {
            0u8
        },
    ]
}

/// The parser recovers a header from its own serialized payload, as long as
/// the header satisfies the invariants the parser enforces.
pub proof fn lemma_ihdr_roundtrip(h: ImageHeader)
    requires
        h.compression_method == 0,
        h.filter_method == 0,
    ensures
        ihdr_payload(h).len() == 13,
        ihdr_spec(ihdr_payload(h)) == Some(h),
{
    let p = ihdr_payload(h);
    lemma_be_u32_roundtrip(h.width);
    lemma_be_u32_roundtrip(h.height);
    assert(p.subrange(0, 4) =~= be_bytes_u32(h.width));
    assert(p.subrange(4, 8) =~= be_bytes_u32(h.height));
    assert forall|j: int| 0 <= j < 4 implies p[j] == be_bytes_u32(h.width)[j] by {
        assert(p.subrange(0, 4)[j] == be_bytes_u32(h.width)[j]);
    }
    assert forall|j: int| 0 <= j < 4 implies p[4 + j] == be_bytes_u32(h.height)[j] by {
        assert(p.subrange(4, 8)[j] == be_bytes_u32(h.height)[j]);
    }
    assert(be_u32(p, 0) == be_u32(be_bytes_u32(h.width), 0));
    assert(be_u32(p, 4) == be_u32(be_bytes_u32(h.height), 0));
    assert(crate::grammar::ColorType::spec_from_u8(h.color_type.spec_to_u8()) == Some(
        h.color_type,
    ));
}

/// The header chunk of an image.
#[derive(Debug)]
pub struct IHDRChunk {
    pub image_header: ImageHeader,
}

impl IHDRChunk {
    /// The thirteen-byte payload.
    pub fn data(&self) -> (r: Vec<u8>)
        ensures
            r@ == ihdr_payload(self.image_header),
    {
        let mut buffer: Vec<u8> = Vec::new();
        push_be_u32(&mut buffer, self.image_header.width);
        push_be_u32(&mut buffer, self.image_header.height);
        buffer.push(self.image_header.bit_depth);
        buffer.push(self.image_header.color_type.to_u8());
        buffer.push(self.image_header.compression_method);
        buffer.push(self.image_header.filter_method);
        buffer.push(
            if self.image_header.interlace_method {
                1
            } else {
                0
            },
        );
        proof {
            assert(buffer@ =~= ihdr_payload(self.image_header));
        }
        buffer
    }

    /// Serialize the whole chunk.
    pub fn write(&self, out: &mut Vec<u8>)
        ensures
            final(out)@ == old(out)@ + chunk_bytes(
                seq![0x49u8, 0x48u8, 0x44u8, 0x52u8],
                ihdr_payload(self.image_header),
            ),
    {
        let data = self.data();
        let tag: [u8; 4] = [0x49, 0x48, 0x44, 0x52];
        proof {
            assert(tag@ =~= seq![0x49u8, 0x48u8, 0x44u8, 0x52u8]);
        }
        write_chunk(out, tag.as_slice(), data.as_slice());
    }
}

/// The palette chunk; this encoder never emits palette entries.
#[derive(Debug)]
pub struct PLTEChunk;

impl PLTEChunk {
    /// Serialize an empty palette chunk.
    pub fn write(&self, out: &mut Vec<u8>)
        ensures
            final(out)@ == old(out)@ + chunk_bytes(
                seq![0x50u8, 0x4cu8, 0x54u8, 0x45u8],
                Seq::empty(),
            ),
    {
        let tag: [u8; 4] = [0x50, 0x4c, 0x54, 0x45];
        let data: Vec<u8> = Vec::new();
        proof {
            assert(tag@ =~= seq![0x50u8, 0x4cu8, 0x54u8, 0x45u8]);
            assert(data@ =~= Seq::<u8>::empty());
        }
        write_chunk(out, tag.as_slice(), data.as_slice());
    }
}

/// The image-data chunk: its payload is the compressed record stream.
#[derive(Debug)]
pub struct IDATChunk {
    pub data: Vec<u8>,
}

impl IDATChunk {
    /// Compress the record stream and serialize the chunk around it. The
    /// write is owed: it fails only when the compressed stream is too long
    /// for one chunk's length field.
    pub fn write(&self, out: &mut Vec<u8>) -> (r: Result<(), EncodeError>)
        ensures
            match r {
                Ok(()) => {
                    &&& 1 <= deflate_of(self.data@).len() <= 0xffff_ffff
                    &&& inflate_of(deflate_of(self.data@)) == Some(self.data@)
                    &&& final(out)@ == old(out)@ + chunk_bytes(
                        seq![0x49u8, 0x44u8, 0x41u8, 0x54u8],
                        deflate_of(self.data@),
                    )
                },
                Err(e) => e == EncodeError::Compression && final(out)@ == old(out)@ && deflate_of(
                    self.data@,
                ).len() > 0xffff_ffff,
            },
    {
        let compressed = match zlib_compress(self.data.as_slice()) {
            Some(v) => v,
            None => {
                proof {
                    assert(false);
                }
                return Err(EncodeError::Compression);
            },
        };
        if compressed.len() > 0xffff_ffffusize {
            return Err(EncodeError::Compression);
        }
        let tag: [u8; 4] = [0x49, 0x44, 0x41, 0x54];
        proof {
            assert(tag@ =~= seq![0x49u8, 0x44u8, 0x41u8, 0x54u8]);
        }
        write_chunk(out, tag.as_slice(), compressed.as_slice());
        Ok(())
    }
}

/// The terminator chunk, with an empty payload.
#[derive(Debug)]
pub struct IENDChunk;

impl IENDChunk {
    /// Serialize the terminator.
    pub fn write(&self, out: &mut Vec<u8>)
        ensures
            final(out)@ == old(out)@ + chunk_bytes(
                seq![0x49u8, 0x45u8, 0x4eu8, 0x44u8],
                Seq::empty(),
            ),
    {
        let tag: [u8; 4] = [0x49, 0x45, 0x4e, 0x44];
        let data: Vec<u8> = Vec::new();
        proof {
            assert(tag@ =~= seq![0x49u8, 0x45u8, 0x4eu8, 0x44u8]);
            assert(data@ =~= Seq::<u8>::empty());
        }
        write_chunk(out, tag.as_slice(), data.as_slice());
    }
}

} // verus!
