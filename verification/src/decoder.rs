//! The chunk-stream parser and the full decoder: signature validation,
//! length-prefixed and checksum-suffixed records, tag dispatch, metadata
//! accumulation, decompression, and scanline reconstruction.

use crate::compress::inflate_of;
use crate::compress::zlib_decompress;
use crate::crc32::compute_crc;
use crate::crc32::crc32_spec;
use crate::grammar::Chunk;
use crate::grammar::ChunkModel;
use crate::grammar::ColorType;
use crate::grammar::DecodeError;
use crate::grammar::ImageHeader;
use crate::grammar::Png;
use crate::grammar::PngModel;
use crate::grammar::TextData;
use crate::scanline_reader::reconstruct_spec;
use crate::scanline_reader::ScanlineReader;
use vstd::prelude::*;

verus! {

/// The big-endian 32-bit value stored at offset `i`.
pub open spec fn be_u32(s: Seq<u8>, i: int) -> int {
    s[i] * 0x100_0000 + s[i + 1] * 0x1_0000 + s[i + 2] * 0x100 + s[i + 3]
}

/// Whether a byte sequence opens with the fixed eight-byte signature.
pub open spec fn is_signature(s: Seq<u8>) -> bool {
    &&& s.len() >= 8
    &&& s[0] == 0x89
    &&& s[1] == 0x50
    &&& s[2] == 0x4e
    &&& s[3] == 0x47
    &&& s[4] == 0x0d
    &&& s[5] == 0x0a
    &&& s[6] == 0x1a
    &&& s[7] == 0x0a
}

/// Whether the four-byte sequence `t` is the tag `a b c d`.
pub open spec fn tag_is(t: Seq<u8>, a: u8, b: u8, c: u8, d: u8) -> bool {
    t.len() == 4 && t[0] == a && t[1] == b && t[2] == c && t[3] == d
}

/// The offset of the first NUL byte of `s` at or after `i`, or -1 when
/// there is none.
pub open spec fn find_nul(s: Seq<u8>, i: int) -> int
    decreases s.len() - i,
{
    if i < 0 || i >= s.len() {
        -1
    } else if s[i] == 0 {
        i
    } else {
        find_nul(s, i + 1)
    }
}

/// Everything the parse loop accumulates from the chunk stream.
pub struct ParseState {
    /// The header record; present from the first chunk on, since the header
    /// must come first.
    pub header: Option<ImageHeader>,
    /// The raw palette triples, when a palette chunk was stored.
    pub palette: Option<Seq<u8>>,
    /// The concatenation, in file order, of every image-data payload.
    pub idat: Seq<u8>,
    /// Gamma scaled by 100,000; 0 until a gamma record appears.
    pub gamma: u32,
    /// The keyword-to-text metadata, last writer wins.
    pub text: Map<Seq<u8>, Seq<u8>>,
}

/// The state every parse starts from.
pub open spec fn init_state() -> ParseState {
    ParseState {
        header: None,
        palette: None,
        idat: Seq::empty(),
        gamma: 0,
        text: Map::empty(),
    }
}

/// The image header held by a thirteen-byte header payload, unless a field
/// is invalid: the color type must be one of the five defined values and the
/// compression and filter methods must both be 0.
pub open spec fn ihdr_spec(data: Seq<u8>) -> Option<ImageHeader> {
    match ColorType::spec_from_u8(data[9]) {
        Some(color_type) => {
            if data[10] == 0 && data[11] == 0 {
                Some(
                    ImageHeader {
                        width: be_u32(data, 0) as u32,
                        height: be_u32(data, 4) as u32,
                        bit_depth: data[8],
                        color_type,
                        compression_method: data[10],
                        filter_method: data[11],
                        interlace_method: data[12] == 1,
                    },
                )
            } else {
                None
            }
        },
        None => None,
    }
}

/// One step of the chunk grammar: the record at `pos` is read, checked, and
/// folded into the state, and the loop continues after it; the terminator
/// record ends the loop. Every failure is fatal for the whole parse.
pub open spec fn parse_chunks_spec(s: Seq<u8>, pos: int, st: ParseState) -> Result<
    ParseState,
    DecodeError,
>
    decreases s.len() - pos,
{
    if pos < 0 || pos + 4 > s.len() {
        Err(DecodeError::Truncation)
    } else {
        let length = be_u32(s, pos);
        if pos + 12 + length > s.len() {
            Err(DecodeError::Truncation)
        } else {
            let tag = s.subrange(pos + 4, pos + 8);
            let data = s.subrange(pos + 8, pos + 8 + length);
            let next = pos + 12 + length;
            if be_u32(s, pos + 8 + length) != crc32_spec(tag + data) {
                Err(DecodeError::Corruption)
            } else if tag_is(tag, 0x49, 0x48, 0x44, 0x52) {
                // IHDR: must be the very first chunk, with 13 fixed fields.
                if st.header is Some || length != 13 {
                    Err(DecodeError::Structure)
                } else {
                    match ihdr_spec(data) {
                        Some(header) => parse_chunks_spec(
                            s,
                            next,
                            ParseState { header: Some(header), ..st },
                        ),
                        None => Err(DecodeError::Structure),
                    }
                }
            } else if st.header is None {
                // Whatever the first chunk is, it must be the header.
                Err(DecodeError::Structure)
            } else if tag_is(tag, 0x50, 0x4c, 0x54, 0x45) {
                // PLTE: a whole number of triples, forbidden for the
                // grayscale color types, stored only for the palette one.
                let color_type = st.header.unwrap().color_type;
                if length % 3 != 0 {
                    Err(DecodeError::Structure)
                } else if color_type == ColorType::Grayscale || color_type
                    == ColorType::GrayscaleAlpha {
                    Err(DecodeError::Structure)
                } else if color_type == ColorType::Palette {
                    parse_chunks_spec(s, next, ParseState { palette: Some(data), ..st })
                } else {
                    parse_chunks_spec(s, next, st)
                }
            } else if tag_is(tag, 0x49, 0x44, 0x41, 0x54) {
                // IDAT: append to the compressed stream.
                parse_chunks_spec(s, next, ParseState { idat: st.idat + data, ..st })
            } else if tag_is(tag, 0x49, 0x45, 0x4e, 0x44) {
                // IEND: the stream ends here; later bytes are ignored.
                Ok(st)
            } else if tag_is(tag, 0x67, 0x41, 0x4d, 0x41) {
                // gAMA: one big-endian 32-bit value.
                if length != 4 {
                    Err(DecodeError::Structure)
                } else {
                    parse_chunks_spec(
                        s,
                        next,
                        ParseState { gamma: be_u32(data, 0) as u32, ..st },
                    )
                }
            } else if tag_is(tag, 0x74, 0x45, 0x58, 0x74) {
                // tEXt: split at the first NUL into keyword and text.
                let z = find_nul(data, 0);
                if z < 0 {
                    Err(DecodeError::Structure)
                } else {
                    parse_chunks_spec(
                        s,
                        next,
                        ParseState {
                            text: st.text.insert(
                                data.subrange(0, z),
                                data.subrange(z + 1, data.len() as int),
                            ),
                            ..st
                        },
                    )
                }
            } else {
                // Any other tag: checked and skipped.
                parse_chunks_spec(s, next, st)
            }
        }
    }
}

/// The state a list of parsed chunk records holds, folded in order.
pub open spec fn chunks_state(chunks: Seq<ChunkModel>) -> ParseState
    decreases chunks.len(),
{
    if chunks.len() == 0 {
        init_state()
    } else {
        let st = chunks_state(chunks.drop_last());
        match chunks.last() {
            ChunkModel::ImageHeader(h) => ParseState { header: Some(h), ..st },
            ChunkModel::Palette(p) => ParseState { palette: Some(p), ..st },
            ChunkModel::ImageData(d) => ParseState { idat: st.idat + d, ..st },
            ChunkModel::TextData(t) => ParseState { text: t, ..st },
            ChunkModel::Gamma(g) => ParseState { gamma: g, ..st },
        }
    }
}

/// What decoding a byte buffer yields: the fully reconstructed image, or the
/// first fatal error: a signature or grammar violation, a checksum or
/// decompression failure, a geometry mismatch, or a truncated buffer.
pub open spec fn decode_spec(s: Seq<u8>) -> Result<PngModel, DecodeError> {
    if s.len() < 8 {
        Err(DecodeError::Truncation)
    } else if !is_signature(s) {
        Err(DecodeError::Structure)
    } else {
        match parse_chunks_spec(s, 8, init_state()) {
            Err(e) => Err(e),
            Ok(st) => {
                let header = st.header.unwrap();
                if st.idat.len() == 0 {
                    Err(DecodeError::Structure)
                } else {
                    match inflate_of(st.idat) {
                        None => Err(DecodeError::Corruption),
                        Some(raw) => {
                            if raw.len() == 0 {
                                Err(DecodeError::Corruption)
                            } else {
                                match reconstruct_spec(raw, header) {
                                    Err(e) => Err(e),
                                    Ok(pixel_buffer) => Ok(
                                        PngModel {
                                            width: header.width,
                                            height: header.height,
                                            gamma: st.gamma,
                                            color_type: header.color_type,
                                            pixel_buffer,
                                        },
                                    ),
                                }
                            }
                        },
                    }
                }
            },
        }
    }
}

/// The decoder over one in-memory byte buffer.
#[derive(Debug)]
pub struct PngDecoder<'a> {
    pub(crate) cursor: usize,
    pub(crate) data: &'a [u8],
}

impl<'a> PngDecoder<'a> {
    /// The bytes this decoder reads.
    pub closed spec fn spec_data(&self) -> Seq<u8> {
        self.data@
    }

    /// How far into the bytes the decoder has read.
    pub closed spec fn spec_cursor(&self) -> int {
        self.cursor as int
    }

    pub fn new(data: &'a [u8]) -> (r: PngDecoder<'a>)
        ensures
            r.spec_cursor() == 0,
            r.spec_data() == data@,
    {
        PngDecoder { cursor: 0, data }
    }

    /// Read one byte and advance.
    fn read_u8(&mut self) -> (r: Result<u8, DecodeError>)
        ensures
            final(self).data@ == old(self).data@,
            match r {
                Ok(b) => old(self).cursor < final(self).data@.len() && b == final(self).data@[old(self).cursor as int] && final(self).cursor == old(self).cursor + 1,
                Err(e) => e == DecodeError::Truncation && old(self).cursor >= final(self).data@.len() && final(self).cursor == old(self).cursor,
            },
    {
        if self.cursor >= self.data.len() {
            return Err(DecodeError::Truncation);
        }
        let b = self.data[self.cursor];
        self.cursor = self.cursor + 1;
        Ok(b)
    }

    /// Read one big-endian 32-bit value and advance.
    fn read_u32(&mut self) -> (r: Result<u32, DecodeError>)
        ensures
            final(self).data@ == old(self).data@,
            match r {
                Ok(v) => old(self).cursor + 4 <= final(self).data@.len() && v as int == be_u32(
                    final(self).data@,
                    old(self).cursor as int,
                ) && final(self).cursor == old(self).cursor + 4,
                Err(e) => e == DecodeError::Truncation && old(self).cursor + 4 > final(self).data@.len() && final(self).cursor == old(self).cursor,
            },
    {
        if self.cursor >= self.data.len() || self.data.len() - self.cursor < 4 {
            return Err(DecodeError::Truncation);
        }
        let c = self.cursor;
        let b0 = self.data[c];
        let b1 = self.data[c + 1];
        let b2 = self.data[c + 2];
        let b3 = self.data[c + 3];
        self.cursor = c + 4;
        let v = (b0 as u32) * 0x100_0000 + (b1 as u32) * 0x1_0000 + (b2 as u32) * 0x100 + (
        b3 as u32);
        proof {
            assert(v as int == be_u32(self.data@, c as int));
        }
        Ok(v)
    }

    /// Read `len` bytes and advance.
    fn read_slice(&mut self, len: usize) -> (r: Result<&'a [u8], DecodeError>)
        ensures
            final(self).data@ == old(self).data@,
            match r {
                Ok(out) => old(self).cursor + len <= final(self).data@.len() && out@ == final(self).data@.subrange(old(self).cursor as int, old(self).cursor + len) && final(self).cursor == old(self).cursor + len,
                Err(e) => e == DecodeError::Truncation && old(self).cursor + len > final(self).data@.len() && final(self).cursor == old(self).cursor,
            },
    {
        if self.cursor > self.data.len() || self.data.len() - self.cursor < len {
            return Err(DecodeError::Truncation);
        }
        let out = vstd::slice::slice_subrange(self.data, self.cursor, self.cursor + len);
        self.cursor = self.cursor + len;
        Ok(out)
    }

    /// Step over a record's four checksum bytes.
    fn skip_crc(&mut self) -> (r: Result<(), DecodeError>)
        ensures
            final(self).data@ == old(self).data@,
            match r {
                Ok(()) => old(self).cursor + 4 <= final(self).data@.len() && final(self).cursor
                    == old(self).cursor + 4,
                Err(e) => e == DecodeError::Truncation && old(self).cursor + 4 > final(self).data@.len() && final(self).cursor == old(self).cursor,
            },
    {
        if self.cursor > self.data.len() || self.data.len() - self.cursor < 4 {
            return Err(DecodeError::Truncation);
        }
        self.cursor = self.cursor + 4;
        Ok(())
    }

    /// Whether a record's stored checksum matches the checksum of its tag
    /// and payload.
    fn validate_crc(&self, chunk_type: &[u8], chunk_data: &[u8], expected_crc: u32) -> (r: bool)
        ensures
            r == (expected_crc == crc32_spec(chunk_type@ + chunk_data@)),
    {
        expected_crc == compute_crc(chunk_type, chunk_data)
    }
}

/// Whether a four-byte tag is `a b c d`.
fn tag_eq(t: &[u8], a: u8, b: u8, c: u8, d: u8) -> (r: bool)
    requires
        t@.len() == 4,
    ensures
        r == tag_is(t@, a, b, c, d),
{
    t[0] == a && t[1] == b && t[2] == c && t[3] == d
}

/// The spec-level values of a list of chunk records.
pub open spec fn views_of(chunks: Seq<Chunk>) -> Seq<ChunkModel> {
    chunks.map_values(|c: Chunk| c@)
}

/// Find the first NUL byte of a payload, as the keyword-text split point.
fn find_nul_exec(data: &[u8]) -> (r: Option<usize>)
    ensures
        match r {
            Some(z) => find_nul(data@, 0) == z as int && z < data@.len(),
            None => find_nul(data@, 0) == -1,
        },
{
    let n = data.len();
    let mut i: usize = 0;
    while i < n
        invariant
            0 <= i <= n,
            n == data@.len(),
            find_nul(data@, 0) == find_nul(data@, i as int),
        decreases n - i,
    {
        if data[i] == 0 {
            return Some(i);
        }
        i = i + 1;
    }
    None
}

/// Parse the thirteen fixed header fields out of a header payload.
fn parse_ihdr(data: &[u8]) -> (r: Option<ImageHeader>)
    requires
        data@.len() == 13,
    ensures
        r == ihdr_spec(data@),
{
    let width = (data[0] as u32) * 0x100_0000 + (data[1] as u32) * 0x1_0000 + (data[2] as u32)
        * 0x100 + (data[3] as u32);
    let height = (data[4] as u32) * 0x100_0000 + (data[5] as u32) * 0x1_0000 + (data[6] as u32)
        * 0x100 + (data[7] as u32);
    proof {
        assert(width as int == be_u32(data@, 0));
        assert(height as int == be_u32(data@, 4));
    }
    let color_type = match ColorType::try_from_u8(data[9]) {
        Some(c) => c,
        None => {
            return None;
        },
    };
    if data[10] != 0 || data[11] != 0 {
        return None;
    }
    Some(
        ImageHeader {
            width,
            height,
            bit_depth: data[8],
            color_type,
            compression_method: data[10],
            filter_method: data[11],
            interlace_method: data[12] == 1,
        },
    )
}

impl<'a> PngDecoder<'a> {
    /// Walk the chunk stream from the cursor to the terminator record,
    /// validating each record's checksum and folding the recognized records
    /// into a list: the header first, then palette, image-data and gamma
    /// records in file order, with the accumulated text metadata last.
    #[verifier::loop_isolation(false)]
    #[verifier::rlimit(100)]
    pub fn parse_chunks(&mut self) -> (r: Result<Vec<Chunk>, DecodeError>)
        ensures
            final(self).spec_data() == old(self).spec_data(),
            match r {
                Ok(chunks) => {
                    &&& parse_chunks_spec(
                        old(self).spec_data(),
                        old(self).spec_cursor(),
                        init_state(),
                    ) == Ok::<ParseState, DecodeError>(chunks_state(views_of(chunks@)))
                    &&& chunks@.len() >= 1
                    &&& views_of(chunks@)[0] == ChunkModel::ImageHeader(
                        chunks_state(views_of(chunks@)).header.unwrap(),
                    )
                    &&& chunks_state(views_of(chunks@)).header is Some
                },
                Err(e) => parse_chunks_spec(
                    old(self).spec_data(),
                    old(self).spec_cursor(),
                    init_state(),
                ) == Err::<ParseState, DecodeError>(e),
            },
    {
        let ghost s = self.data@;
        let ghost start = self.cursor as int;
        let mut chunks: Vec<Chunk> = Vec::new();
        let mut text = TextData::new();
        let mut header: Option<ImageHeader> = None;
        let ghost mut st = init_state();

        loop
            invariant
                self.data@ == s,
                text.wf(),
                st.text == text@,
                st.header == header,
                parse_chunks_spec(s, start, init_state()) == parse_chunks_spec(
                    s,
                    self.cursor as int,
                    st,
                ),
                chunks_state(views_of(chunks@)) == (ParseState {
                    text: Map::<Seq<u8>, Seq<u8>>::empty(),
                    ..st
                }),
                header is Some ==> chunks@.len() >= 1 && views_of(chunks@)[0]
                    == ChunkModel::ImageHeader(header.unwrap()),
                header is None ==> chunks@.len() == 0,
            decreases s.len() - self.cursor,
        {
            let ghost st0 = st;
            let ghost pos = self.cursor as int;
            let length_word = match self.read_u32() {
                Ok(v) => v,
                Err(e) => {
                    return Err(e);
                },
            };
            let length = length_word as usize;
            if ((self.data.len() - self.cursor) as u64) < 8 + (length as u64) {
                return Err(DecodeError::Truncation);
            }
            let tag = match self.read_slice(4) {
                Ok(t) => t,
                Err(e) => {
                    return Err(e);
                },
            };
            let data = match self.read_slice(length) {
                Ok(d) => d,
                Err(e) => {
                    return Err(e);
                },
            };
            let expected_crc = match self.read_u32() {
                Ok(v) => v,
                Err(e) => {
                    return Err(e);
                },
            };
            proof {
                assert(tag@ == s.subrange(pos + 4, pos + 8));
                assert(data@ == s.subrange(pos + 8, pos + 8 + length));
                assert(self.cursor as int == pos + 12 + length);
            }
            if !self.validate_crc(tag, data, expected_crc) {
                return Err(DecodeError::Corruption);
            }

            if tag_eq(tag, 0x49, 0x48, 0x44, 0x52) {
                // IHDR
                if header.is_some() || length != 13 {
                    return Err(DecodeError::Structure);
                }
                let h = match parse_ihdr(data) {
                    Some(h) => h,
                    None => {
                        return Err(DecodeError::Structure);
                    },
                };
                header = Some(h);
                let ghost chunks0 = chunks@;
                chunks.push(Chunk::ImageHeader(h));
                proof {
                    st = ParseState { header: Some(h), ..st };
                    assert(views_of(chunks@).drop_last() =~= views_of(chunks0));
                    assert(views_of(chunks@).last() == ChunkModel::ImageHeader(h));
                    assert(chunks_state(views_of(chunks@)) == (ParseState {
                        text: Map::<Seq<u8>, Seq<u8>>::empty(),
                        ..st
                    }));
                    assert(views_of(chunks@)[0] == ChunkModel::ImageHeader(h));
                }
            } else if header.is_none() {
                return Err(DecodeError::Structure);
            } else if tag_eq(tag, 0x50, 0x4c, 0x54, 0x45) {
                // PLTE
                if length % 3 != 0 {
                    return Err(DecodeError::Structure);
                }
                let color_type = header.unwrap().color_type;
                if color_type == ColorType::Grayscale || color_type == ColorType::GrayscaleAlpha {
                    return Err(DecodeError::Structure);
                }
                if color_type == ColorType::Palette {
                    let ghost chunks0 = chunks@;
                    chunks.push(Chunk::Palette(vstd::slice::slice_to_vec(data)));
                    proof {
                        st = ParseState { palette: Some(data@), ..st };
                        assert(views_of(chunks@).drop_last() =~= views_of(chunks0));
                        assert(views_of(chunks@).last() == ChunkModel::Palette(data@));
                        assert(chunks_state(views_of(chunks@)) == (ParseState {
                            text: Map::<Seq<u8>, Seq<u8>>::empty(),
                            ..st
                        }));
                    }
                }
            } else if tag_eq(tag, 0x49, 0x44, 0x41, 0x54) {
                // IDAT
                let ghost chunks0 = chunks@;
                chunks.push(Chunk::ImageData(vstd::slice::slice_to_vec(data)));
                proof {
                    st = ParseState { idat: st.idat + data@, ..st };
                    assert(views_of(chunks@).drop_last() =~= views_of(chunks0));
                    assert(views_of(chunks@).last() == ChunkModel::ImageData(data@));
                    assert(chunks_state(views_of(chunks@)) == (ParseState {
                        text: Map::<Seq<u8>, Seq<u8>>::empty(),
                        ..st
                    }));
                }
            } else if tag_eq(tag, 0x49, 0x45, 0x4e, 0x44) {
                // IEND
                if text.len() != 0 {
                    let ghost chunks0 = chunks@;
                    let ghost tmap = text@;
                    chunks.push(Chunk::TextData(text));
                    proof {
                        assert(views_of(chunks@).drop_last() =~= views_of(chunks0));
                        assert(views_of(chunks@).last() == ChunkModel::TextData(tmap));
                        assert(chunks_state(views_of(chunks@)) == st);
                    }
                } else {
                    proof {
                        assert(st.text == Map::<Seq<u8>, Seq<u8>>::empty());
                        assert(chunks_state(views_of(chunks@)) == st);
                    }
                }
                return Ok(chunks);
            } else if tag_eq(tag, 0x67, 0x41, 0x4d, 0x41) {
                // gAMA
                if length != 4 {
                    return Err(DecodeError::Structure);
                }
                let g = (data[0] as u32) * 0x100_0000 + (data[1] as u32) * 0x1_0000 + (
                data[2] as u32) * 0x100 + (data[3] as u32);
                proof {
                    assert(g as int == be_u32(data@, 0));
                }
                let ghost chunks0 = chunks@;
                chunks.push(Chunk::Gamma(g));
                proof {
                    st = ParseState { gamma: g, ..st };
                    assert(views_of(chunks@).drop_last() =~= views_of(chunks0));
                    assert(views_of(chunks@).last() == ChunkModel::Gamma(g));
                    assert(chunks_state(views_of(chunks@)) == (ParseState {
                        text: Map::<Seq<u8>, Seq<u8>>::empty(),
                        ..st
                    }));
                }
            } else if tag_eq(tag, 0x74, 0x45, 0x58, 0x74) {
                // tEXt
                let z = match find_nul_exec(data) {
                    Some(z) => z,
                    None => {
                        return Err(DecodeError::Structure);
                    },
                };
                let keyword = vstd::slice::slice_to_vec(
                    vstd::slice::slice_subrange(data, 0, z),
                );
                let body = vstd::slice::slice_to_vec(
                    vstd::slice::slice_subrange(data, z + 1, data.len()),
                );
                proof {
                    assert(keyword@ =~= data@.subrange(0, z as int));
                    assert(body@ =~= data@.subrange(z as int + 1, data@.len() as int));
                }
                text.insert(keyword, body);
                proof {
                    st = ParseState { text: st.text.insert(
                        data@.subrange(0, z as int),
                        data@.subrange(z as int + 1, data@.len() as int),
                    ), ..st };
                }
            } else {
                // Any other tag: checked and skipped.
            }
        }
    }

    /// Decode the whole buffer: validate the signature, parse the chunk
    /// stream, decompress the concatenated image data, and reconstruct the
    /// pixel buffer.
    #[verifier::loop_isolation(false)]
    pub fn decode(&mut self) -> (r: Result<Png, DecodeError>)
        requires
            old(self).spec_cursor() == 0,
        ensures
            match r {
                Ok(png) => decode_spec(old(self).spec_data()) == Ok::<PngModel, DecodeError>(png@),
                Err(e) => decode_spec(old(self).spec_data()) == Err::<PngModel, DecodeError>(e),
            },
    {
        let ghost s = self.data@;
        let sig = match self.read_slice(8) {
            Ok(sig) => sig,
            Err(e) => {
                return Err(e);
            },
        };
        if !(sig[0] == 0x89 && sig[1] == 0x50 && sig[2] == 0x4e && sig[3] == 0x47 && sig[4] == 0x0d
            && sig[5] == 0x0a && sig[6] == 0x1a && sig[7] == 0x0a) {
            return Err(DecodeError::Structure);
        }
        assert(is_signature(s));

        let chunks = match self.parse_chunks() {
            Ok(chunks) => chunks,
            Err(e) => {
                return Err(e);
            },
        };
        let ghost st = chunks_state(views_of(chunks@));

        let header = match &chunks[0] {
            Chunk::ImageHeader(h) => *h,
            _ => {
                proof {
                    assert(false);
                }
                return Err(DecodeError::Structure);
            },
        };
        proof {
            assert(st.header == Some(header));
        }

        // Collect the gamma record and concatenate the image-data payloads,
        // in file order.
        let mut compressed_stream: Vec<u8> = Vec::new();
        let mut gamma: u32 = 0;
        let n = chunks.len();
        let mut i: usize = 0;
        while i < n
            invariant
                0 <= i <= n,
                n == chunks@.len(),
                compressed_stream@ == chunks_state(views_of(chunks@.take(i as int))).idat,
                gamma == chunks_state(views_of(chunks@.take(i as int))).gamma,
            decreases n - i,
        {
            match &chunks[i] {
                Chunk::Gamma(g) => {
                    gamma = *g;
                },
                Chunk::ImageData(sub_data) => {
                    compressed_stream.extend_from_slice(sub_data.as_slice());
                },
                _ => {},
            }
            proof {
                assert(views_of(chunks@.take(i + 1)).drop_last() =~= views_of(
                    chunks@.take(i as int),
                ));
                assert(views_of(chunks@.take(i + 1)).last() == chunks@[i as int]@);
            }
            i = i + 1;
        }
        proof {
            assert(chunks@.take(n as int) =~= chunks@);
        }

        if compressed_stream.is_empty() {
            return Err(DecodeError::Structure);
        }

        let input_buffer = match zlib_decompress(compressed_stream.as_slice()) {
            Some(v) => v,
            None => {
                return Err(DecodeError::Corruption);
            },
        };
        if input_buffer.is_empty() {
            return Err(DecodeError::Corruption);
        }

        let scanline_reader = ScanlineReader::new(input_buffer.as_slice(), &header);
        let pixel_buffer = match scanline_reader.read_lines() {
            Ok(v) => v,
            Err(e) => {
                return Err(e);
            },
        };

        let png = Png {
            width: header.width,
            height: header.height,
            gamma,
            color_type: header.color_type,
            pixel_buffer,
        };
        proof {
            assert(parse_chunks_spec(s, 8, init_state()) == Ok::<ParseState, DecodeError>(st));
            assert(st.idat.len() > 0);
            assert(inflate_of(st.idat) == Some(input_buffer@));
            assert(input_buffer@.len() > 0);
            assert(reconstruct_spec(input_buffer@, header) == Ok::<Seq<u8>, DecodeError>(
                png.pixel_buffer@,
            ));
            assert(gamma == st.gamma);
            assert(decode_spec(s) == Ok::<PngModel, DecodeError>(png@));
        }
        Ok(png)
    }
}

} // verus!
