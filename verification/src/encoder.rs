//! The encoder: re-serialize a decoded image into the container format, so
//! that decoding the output recovers the image exactly.

use crate::chunk::chunk_bytes;
use crate::chunk::ihdr_payload;
use crate::chunk::lemma_chunk_fields;
use crate::chunk::lemma_ihdr_roundtrip;
use crate::chunk::IDATChunk;
use crate::chunk::IENDChunk;
use crate::chunk::IHDRChunk;
use crate::compress::deflate_of;
use crate::compress::inflate_of;
use crate::decoder::be_u32;
use crate::decoder::decode_spec;
use crate::decoder::init_state;
use crate::decoder::parse_chunks_spec;
use crate::decoder::ParseState;
use crate::grammar::DecodeError;
use crate::grammar::EncodeError;
use crate::grammar::ImageHeader;
use crate::grammar::Png;
use crate::grammar::PngModel;
use crate::scanline_reader::reconstruct_spec;
use crate::scanline_reader::zero_seq;
use crate::scanline_writer::filter_stream;
use crate::scanline_writer::lemma_filter_stream_inverse;
use crate::scanline_writer::lemma_filter_stream_len;
use crate::scanline_writer::ScanlineWriter;
use vstd::prelude::*;

verus! {

/// The eight-byte magic constant every file opens with.
pub open spec fn sig_bytes() -> Seq<u8> {
    seq![0x89u8, 0x50u8, 0x4eu8, 0x47u8, 0x0du8, 0x0au8, 0x1au8, 0x0au8]
}

/// The header this encoder stamps on an image: eight bits per sample, the
/// image's own dimensions and color type, methods 0, not interlaced.
pub open spec fn encode_header(p: PngModel) -> ImageHeader {
    ImageHeader {
        width: p.width,
        height: p.height,
        bit_depth: 8,
        color_type: p.color_type,
        compression_method: 0,
        filter_method: 0,
        interlace_method: false,
    }
}

/// The filtered record stream of an image at eight bits per sample.
pub open spec fn encode_stream(p: PngModel) -> Seq<u8> {
    let bpp = p.color_type.spec_num_channels() as int;
    let rb = bpp * p.width;
    filter_stream(p.pixel_buffer, rb, bpp, zero_seq(rb))
}

/// Everything `encode` emits for an image: signature, header chunk, one
/// image-data chunk holding the compressed record stream, terminator chunk.
pub open spec fn encode_spec(p: PngModel) -> Seq<u8> {
    sig_bytes() + chunk_bytes(seq![0x49u8, 0x48u8, 0x44u8, 0x52u8], ihdr_payload(encode_header(p)))
        + chunk_bytes(
        seq![0x49u8, 0x44u8, 0x41u8, 0x54u8],
        deflate_of(encode_stream(p)),
    ) + chunk_bytes(seq![0x49u8, 0x45u8, 0x4eu8, 0x44u8], Seq::empty())
}

/// Whether an image has the eight-bit row-major layout this encoder writes:
/// a non-empty image whose buffer holds one byte per channel per pixel.
pub open spec fn encodable(p: PngModel) -> bool {
    &&& 1 <= p.width
    &&& 1 <= p.height
    &&& p.pixel_buffer.len() == p.width * p.height * p.color_type.spec_num_channels()
}

/// At eight bits per sample a pixel holds one byte per channel.
proof fn lemma_bpp_eight_bit(p: PngModel)
    ensures
        encode_header(p).spec_bytes_per_pixel() == p.color_type.spec_num_channels() as int,
{
    let c = p.color_type.spec_num_channels() as int;
    assert(1 <= c <= 4);
    assert((c * 8 + 7) / 8 == c);
}

/// Round trip: the bytes `encode` emits for an image decode back to that
/// image, with the gamma field cleared, since this encoder writes no gamma
/// record.
#[verifier::rlimit(100)]
#[verifier::spinoff_prover]
proof fn lemma_decode_encoded(p: PngModel, z: Seq<u8>, stream: Seq<u8>)
    requires
        encodable(p),
        stream == encode_stream(p),
        z == deflate_of(stream),
        1 <= z.len() <= 0xffff_ffff,
        inflate_of(z) == Some(stream),
    ensures
        decode_spec(encode_spec(p)) == Ok::<PngModel, DecodeError>(PngModel { gamma: 0, ..p }),
{
    let hdr = encode_header(p);
    let tag1 = seq![0x49u8, 0x48u8, 0x44u8, 0x52u8];
    let tag2 = seq![0x49u8, 0x44u8, 0x41u8, 0x54u8];
    let tag3 = seq![0x49u8, 0x45u8, 0x4eu8, 0x44u8];
    let pay1 = ihdr_payload(hdr);
    lemma_ihdr_roundtrip(hdr);
    let cb1 = chunk_bytes(tag1, pay1);
    let cb2 = chunk_bytes(tag2, z);
    let cb3 = chunk_bytes(tag3, Seq::<u8>::empty());
    let s = encode_spec(p);
    assert(s == sig_bytes() + cb1 + cb2 + cb3);
    assert(cb1.len() == 25 && cb2.len() == 12 + z.len() && cb3.len() == 12);

    // The signature opens the stream.
    assert forall|j: int| 0 <= j < 8 implies s[j] == sig_bytes()[j] by {
        assert((sig_bytes() + cb1)[j] == sig_bytes()[j]);
        assert((sig_bytes() + cb1 + cb2)[j] == (sig_bytes() + cb1)[j]);
        assert(s[j] == (sig_bytes() + cb1 + cb2)[j]);
    }
    assert(crate::decoder::is_signature(s));

    // The header chunk stands at offset 8.
    assert(s =~= sig_bytes() + cb1 + (cb2 + cb3));
    lemma_chunk_fields(sig_bytes(), tag1, pay1, cb2 + cb3);
    assert(be_u32(s, 8) == 13);
    assert(s.subrange(12, 16) == tag1);
    assert(s.subrange(16, 29) == pay1);
    assert(be_u32(s, 29) == crate::crc32::crc32_spec(tag1 + pay1));
    let st1 = ParseState { header: Some(hdr), ..init_state() };
    assert(crate::decoder::tag_is(s.subrange(12, 16), 0x49, 0x48, 0x44, 0x52));
    assert(parse_chunks_spec(s, 8, init_state()) == parse_chunks_spec(s, 33, st1));

    // The image-data chunk follows at offset 33.
    assert(s =~= (sig_bytes() + cb1) + cb2 + cb3);
    lemma_chunk_fields(sig_bytes() + cb1, tag2, z, cb3);
    assert((sig_bytes() + cb1).len() == 33);
    assert(be_u32(s, 33) == z.len());
    assert(s.subrange(37, 41) == tag2);
    assert(s.subrange(41, 41 + z.len() as int) == z);
    let next2 = 33 + 12 + z.len() as int;
    assert(!crate::decoder::tag_is(s.subrange(37, 41), 0x49, 0x48, 0x44, 0x52));
    assert(crate::decoder::tag_is(s.subrange(37, 41), 0x49, 0x44, 0x41, 0x54));
    let st2 = ParseState { idat: st1.idat + z, ..st1 };
    assert(parse_chunks_spec(s, 33, st1) == parse_chunks_spec(s, next2, st2));
    assert(st2.idat =~= z);

    // The terminator chunk ends the stream.
    assert(s =~= (sig_bytes() + cb1 + cb2) + cb3 + Seq::<u8>::empty());
    lemma_chunk_fields(sig_bytes() + cb1 + cb2, tag3, Seq::<u8>::empty(), Seq::<u8>::empty());
    assert((sig_bytes() + cb1 + cb2).len() == next2);
    assert(be_u32(s, next2) == 0);
    assert(s.subrange(next2 + 4, next2 + 8) == tag3);
    assert(!crate::decoder::tag_is(s.subrange(next2 + 4, next2 + 8), 0x49, 0x48, 0x44, 0x52));
    assert(!crate::decoder::tag_is(s.subrange(next2 + 4, next2 + 8), 0x50, 0x4c, 0x54, 0x45));
    assert(!crate::decoder::tag_is(s.subrange(next2 + 4, next2 + 8), 0x49, 0x44, 0x41, 0x54));
    assert(crate::decoder::tag_is(s.subrange(next2 + 4, next2 + 8), 0x49, 0x45, 0x4e, 0x44));
    assert(parse_chunks_spec(s, next2, st2) == Ok::<ParseState, DecodeError>(st2));

    // The compressed payload decompresses to the record stream, and the
    // record stream reconstructs to the pixel buffer.
    let c = p.color_type.spec_num_channels() as int;
    let rb = c * p.width;
    lemma_bpp_eight_bit(p);
    assert(1 <= c <= 4);
    assert(rb >= 1 && p.pixel_buffer.len() == (p.height as int) * rb) by (nonlinear_arith)
        requires
            rb == c * p.width,
            p.pixel_buffer.len() == p.width * p.height * c,
            1 <= c,
            1 <= p.width,
            1 <= p.height,
    ;
    lemma_filter_stream_len(p.pixel_buffer, rb, c, zero_seq(rb), p.height as int);
    assert(stream.len() == (p.height as int) * (1 + rb));
    assert(stream.len() >= 1 + rb) by (nonlinear_arith)
        requires
            stream.len() == (p.height as int) * (1 + rb),
            p.height >= 1,
            rb >= 0,
    ;
    assert(zero_seq(rb).len() == rb);
    lemma_filter_stream_inverse(p.pixel_buffer, rb, c, zero_seq(rb), p.height as int);
    assert(reconstruct_spec(stream, hdr) == Ok::<Seq<u8>, DecodeError>(p.pixel_buffer));
    assert(decode_spec(s) == Ok::<PngModel, DecodeError>(PngModel { gamma: 0, ..p }));
}

/// The encoder: serializes a decoded image into an in-memory sink.
pub struct PngEncoder {
    writer: Vec<u8>,
}

impl PngEncoder {
    /// The bytes written so far.
    pub closed spec fn spec_writer(&self) -> Seq<u8> {
        self.writer@
    }

    pub fn new(writer: Vec<u8>) -> (r: PngEncoder)
        ensures
            r.spec_writer() == writer@,
    {
        PngEncoder { writer }
    }

    /// Serialize an image: signature, header chunk, the compressed filtered
    /// record stream as one image-data chunk, and the terminator. On success
    /// the emitted bytes decode back to the image (with no gamma record,
    /// since none is written). Success is owed: the only failure is a
    /// compressed stream too long for one chunk's length field.
    pub fn encode(&mut self, png: &Png) -> (r: Result<(), EncodeError>)
        requires
            encodable(png@),
        ensures
            match r {
                Ok(()) => {
                    &&& final(self).spec_writer() == old(self).spec_writer() + encode_spec(png@)
                    &&& decode_spec(encode_spec(png@)) == Ok::<PngModel, DecodeError>(
                        PngModel { gamma: 0, ..png@ },
                    )
                },
                Err(e) => e == EncodeError::Compression && deflate_of(encode_stream(png@)).len()
                    > 0xffff_ffff && final(self).spec_writer() == old(self).spec_writer()
                    + sig_bytes() + chunk_bytes(
                    seq![0x49u8, 0x48u8, 0x44u8, 0x52u8],
                    ihdr_payload(encode_header(png@)),
                ),
            },
    {
        let sig: [u8; 8] = [0x89, 0x50, 0x4e, 0x47, 0x0d, 0x0a, 0x1a, 0x0a];
        self.writer.extend_from_slice(sig.as_slice());
        proof {
            assert(sig@ =~= sig_bytes());
        }

        let image_header = ImageHeader {
            width: png.width,
            height: png.height,
            bit_depth: 8,
            color_type: png.color_type,
            compression_method: 0,
            filter_method: 0,
            interlace_method: false,
        };
        let image_header_chunk = IHDRChunk { image_header };
        image_header_chunk.write(&mut self.writer);

        proof {
            lemma_bpp_eight_bit(png@);
        }
        let mut scanline_writer = ScanlineWriter::new(Vec::new(), &image_header);
        match scanline_writer.write(png.pixel_buffer.as_slice()) {
            Ok(()) => (),
            Err(e) => {
                return Err(e);
            },
        }
        let stream = scanline_writer.finish();
        proof {
            assert(stream@ == encode_stream(png@));
        }

        let image_data_chunk = IDATChunk { data: stream };
        match image_data_chunk.write(&mut self.writer) {
            Ok(()) => (),
            Err(e) => {
                return Err(e);
            },
        }

        let image_end = IENDChunk;
        image_end.write(&mut self.writer);

        proof {
            assert(self.writer@ =~= old(self).spec_writer() + encode_spec(png@));
            lemma_decode_encoded(
                png@,
                deflate_of(encode_stream(png@)),
                encode_stream(png@),
            );
        }
        Ok(())
    }

    /// Hand back the sink with everything written so far.
    pub fn finish(self) -> (r: Vec<u8>)
        ensures
            r@ == self.spec_writer(),
    {
        self.writer
    }
}

} // verus!
