//! Core data model of the container format: color types, filter types, the
//! image header, chunk payloads, and the decoded image.

use vstd::prelude::*;

verus! {

/// How a decode attempt fails. Any failure aborts the whole decode; no
/// partial image is ever returned.
#[derive(Debug, Clone, Copy, PartialEq, Eq, Structural)]
pub enum DecodeError {
    /// The container's structure is invalid: bad signature, header not first,
    /// invalid palette placement or length, unsupported compression or filter
    /// method, or an invalid color-type or filter-type byte.
    Structure,
    /// The container is structurally plausible but its content is damaged: a
    /// checksum mismatch, a decompression failure, or a reconstructed buffer
    /// whose length does not match the header.
    Corruption,
    /// The buffer ended while a field was being read.
    Truncation,
}

/// How an encode attempt fails.
#[derive(Debug, Clone, Copy, PartialEq, Eq, Structural)]
pub enum EncodeError {
    /// The compression collaborator produced no stream that fits one
    /// image-data chunk.
    Compression,
}

/// The color interpretation of a pixel, as stored in the image header.
#[derive(Debug, Clone, Copy, PartialEq, Eq, Structural)]
pub enum ColorType {
    Grayscale,
    RGB,
    Palette,
    GrayscaleAlpha,
    RGBA,
}

impl ColorType {
    /// Number of samples each pixel carries for this color type.
    pub open spec fn spec_num_channels(self) -> u8 {
        match self {
            ColorType::Grayscale => 1,
            ColorType::RGB => 3,
            ColorType::Palette => 1,
            ColorType::GrayscaleAlpha => 2,
            ColorType::RGBA => 4,
        }
    }

    pub(crate) fn num_channels(&self) -> (n: u8)
        ensures
            n == self.spec_num_channels(),
    {
        match self {
            ColorType::Grayscale => 1,
            ColorType::RGB => 3,
            ColorType::Palette => 1,
            ColorType::GrayscaleAlpha => 2,
            ColorType::RGBA => 4,
        }
    }

    /// The color type encoded by a header byte, if the byte is one of the
    /// five defined values.
    pub open spec fn spec_from_u8(value: u8) -> Option<ColorType> {
        match value {
            0u8 => Some(ColorType::Grayscale),
            2u8 => Some(ColorType::RGB),
            3u8 => Some(ColorType::Palette),
            4u8 => Some(ColorType::GrayscaleAlpha),
            6u8 => Some(ColorType::RGBA),
            _ => None,
        }
    }

    pub fn try_from_u8(value: u8) -> (r: Option<ColorType>)
        ensures
            r == ColorType::spec_from_u8(value),
    {
        match value {
            0u8 => Some(ColorType::Grayscale),
            2u8 => Some(ColorType::RGB),
            3u8 => Some(ColorType::Palette),
            4u8 => Some(ColorType::GrayscaleAlpha),
            6u8 => Some(ColorType::RGBA),
            _ => None,
        }
    }

    pub open spec fn spec_to_u8(self) -> u8 {
        match self {
            ColorType::Grayscale => 0,
            ColorType::RGB => 2,
            ColorType::Palette => 3,
            ColorType::GrayscaleAlpha => 4,
            ColorType::RGBA => 6,
        }
    }

    pub(crate) fn to_u8(&self) -> (v: u8)
        ensures
            v == self.spec_to_u8(),
    {
        match self {
            ColorType::Grayscale => 0,
            ColorType::RGB => 2,
            ColorType::Palette => 3,
            ColorType::GrayscaleAlpha => 4,
            ColorType::RGBA => 6,
        }
    }
}

/// The per-row filter algorithm named by the leading byte of a scanline
/// record. Each one must be reversed exactly during decode.
#[derive(Debug, Clone, Copy, PartialEq, Eq, Structural)]
pub enum Filter {
    NoFilter,
    Sub,
    Up,
    Average,
    Paeth,
}

impl Filter {
    pub open spec fn spec_from_u8(value: u8) -> Option<Filter> {
        match value {
            0u8 => Some(Filter::NoFilter),
            1u8 => Some(Filter::Sub),
            2u8 => Some(Filter::Up),
            3u8 => Some(Filter::Average),
            4u8 => Some(Filter::Paeth),
            _ => None,
        }
    }

    pub fn try_from_u8(value: u8) -> (r: Option<Filter>)
        ensures
            r == Filter::spec_from_u8(value),
    {
        match value {
            0u8 => Some(Filter::NoFilter),
            1u8 => Some(Filter::Sub),
            2u8 => Some(Filter::Up),
            3u8 => Some(Filter::Average),
            4u8 => Some(Filter::Paeth),
            _ => None,
        }
    }

    pub open spec fn spec_to_u8(self) -> u8 {
        match self {
            Filter::NoFilter => 0,
            Filter::Sub => 1,
            Filter::Up => 2,
            Filter::Average => 3,
            Filter::Paeth => 4,
        }
    }

    pub fn to_u8(&self) -> (v: u8)
        ensures
            v == self.spec_to_u8(),
    {
        match self {
            Filter::NoFilter => 0,
            Filter::Sub => 1,
            Filter::Up => 2,
            Filter::Average => 3,
            Filter::Paeth => 4,
        }
    }
}

/// The thirteen-byte header record that must open every chunk stream.
#[derive(Debug, Clone, Copy, PartialEq, Eq, Structural)]
pub struct ImageHeader {
    pub width: u32,
    pub height: u32,
    pub bit_depth: u8,
    pub color_type: ColorType,
    /// Always 0; any other value is rejected while the header is parsed.
    pub compression_method: u8,
    /// Always 0; any other value is rejected while the header is parsed.
    pub filter_method: u8,
    /// True when the pixel stream is stored in the seven-pass progressive
    /// order rather than row by row.
    pub interlace_method: bool,
}

impl ImageHeader {
    /// Bytes per pixel, rounding a fractional bit width up to a whole byte.
    pub open spec fn spec_bytes_per_pixel(self) -> int {
        (self.color_type.spec_num_channels() * self.bit_depth + 7) / 8
    }

    pub(crate) fn num_bytes_per_pixel(&self) -> (n: usize)
        ensures
            n == self.spec_bytes_per_pixel(),
            0 <= n <= 128,
    {
        let channels = self.color_type.num_channels();
        proof {
            assert(channels <= 4);
            assert(channels * self.bit_depth <= 4 * 255) by (nonlinear_arith)
                requires
                    channels <= 4,
                    self.bit_depth <= 255,
            ;
        }
        let bits_per_pixel: usize = channels as usize * self.bit_depth as usize;

        (bits_per_pixel + 7) / 8
    }
}

/// The keyword-to-text metadata map accumulated from text chunks. Keys are
/// unique; inserting an existing keyword replaces its text (last writer
/// wins).
#[derive(Debug, Clone)]
pub struct TextData {
    entries: Vec<(Vec<u8>, Vec<u8>)>,
}

/// The map held by a list of keyword-text entries: a keyword is bound to the
/// text of some entry carrying it.
spec fn text_map_of(entries: Seq<(Vec<u8>, Vec<u8>)>) -> Map<Seq<u8>, Seq<u8>> {
    Map::new(
        |k: Seq<u8>| exists|i: int| 0 <= i < entries.len() && entries[i].0@ == k,
        |k: Seq<u8>|
            {
                let i = choose|i: int| 0 <= i < entries.len() && entries[i].0@ == k;
                entries[i].1@
            },
    )
}

impl View for TextData {
    type V = Map<Seq<u8>, Seq<u8>>;

    closed spec fn view(&self) -> Map<Seq<u8>, Seq<u8>> {
        text_map_of(self.entries@)
    }
}

impl TextData {
    /// All stored keywords are distinct, so the view map determines the
    /// entries up to order.
    pub closed spec fn wf(self) -> bool {
        forall|i: int, j: int|
            0 <= i < j < self.entries@.len() ==> self.entries@[i].0@ != self.entries@[j].0@
    }

    pub fn new() -> (r: TextData)
        ensures
            r.wf(),
            r@ == Map::<Seq<u8>, Seq<u8>>::empty(),
    {
        let r = TextData { entries: Vec::new() };
        proof {
            assert(r@ =~= Map::<Seq<u8>, Seq<u8>>::empty());
        }
        r
    }

    pub fn len(&self) -> (n: usize)
        requires
            self.wf(),
        ensures
            n == self@.dom().len(),
            n == 0 ==> self@ == Map::<Seq<u8>, Seq<u8>>::empty(),
    {
        proof {
            lemma_text_map_len(self.entries@);
            if self.entries@.len() == 0 {
                assert(self@ =~= Map::<Seq<u8>, Seq<u8>>::empty());
            }
        }
        self.entries.len()
    }

    /// The text stored for a keyword, if any.
    pub fn get(&self, keyword: &[u8]) -> (r: Option<&Vec<u8>>)
        requires
            self.wf(),
        ensures
            match r {
                Some(v) => self@.contains_key(keyword@) && v@ == self@[keyword@],
                None => !self@.contains_key(keyword@),
            },
    {
        let n = self.entries.len();
        let mut i: usize = 0;
        while i < n
            invariant
                0 <= i <= n,
                n == self.entries@.len(),
                self.wf(),
                forall|j: int| 0 <= j < i ==> self.entries@[j].0@ != keyword@,
            decreases n - i,
        {
            if bytes_eq(self.entries[i].0.as_slice(), keyword) {
                proof {
                    lemma_text_map_index(self.entries@, i as int);
                }
                return Some(&self.entries[i].1);
            }
            i = i + 1;
        }
        None
    }

    /// Record `text` for `keyword`, replacing any earlier text stored for the
    /// same keyword.
    pub fn insert(&mut self, keyword: Vec<u8>, text: Vec<u8>)
        requires
            old(self).wf(),
        ensures
            final(self).wf(),
            final(self)@ == old(self)@.insert(keyword@, text@),
    {
        let ghost old_entries = self.entries@;
        let n = self.entries.len();
        let mut i: usize = 0;
        while i < n
            invariant
                0 <= i <= n,
                n == self.entries@.len(),
                self.entries@ == old_entries,
                old(self).wf(),
                self.entries@ == old(self).entries@,
                forall|j: int| 0 <= j < i ==> self.entries@[j].0@ != keyword@,
            decreases n - i,
        {
            if bytes_eq(self.entries[i].0.as_slice(), keyword.as_slice()) {
                let ghost kw = keyword@;
                let ghost tx = text@;
                self.entries[i] = (keyword, text);
                proof {
                    let e_new = self.entries@;
                    assert forall|p: int, q: int| 0 <= p < q < e_new.len() implies e_new[p].0@
                        != e_new[q].0@ by {
                        assert(old_entries[p].0@ != old_entries[q].0@);
                    }
                    assert forall|k: Seq<u8>|
                        text_map_of(e_new).dom().contains(k) == old(self)@.insert(
                            kw,
                            tx,
                        ).dom().contains(k) by {
                        if text_map_of(e_new).dom().contains(k) {
                            let j = choose|j: int|
                                0 <= j < e_new.len() && e_new[j].0@ == k;
                            assert(old_entries[j].0@ == k);
                        }
                        if old(self)@.insert(kw, tx).dom().contains(k) {
                            if k == kw {
                                assert(e_new[i as int].0@ == k);
                            } else {
                                let j = choose|j: int|
                                    0 <= j < old_entries.len() && old_entries[j].0@ == k;
                                assert(e_new[j].0@ == k);
                            }
                        }
                    }
                    assert forall|k: Seq<u8>|
                        text_map_of(e_new).dom().contains(k) implies text_map_of(e_new)[k]
                        == old(self)@.insert(kw, tx)[k] by {
                        if k == kw {
                            lemma_text_map_index(e_new, i as int);
                        } else {
                            let j = choose|j: int|
                                0 <= j < old_entries.len() && old_entries[j].0@ == k;
                            assert(e_new[j].0@ == k);
                            lemma_text_map_index(e_new, j);
                            lemma_text_map_index(old_entries, j);
                        }
                    }
                    assert(self@ =~= old(self)@.insert(kw, tx));
                }
                return ;
            }
            i = i + 1;
        }
        let ghost kw = keyword@;
        let ghost tx = text@;
        self.entries.push((keyword, text));
        proof {
            let e_new = self.entries@;
            assert forall|p: int, q: int| 0 <= p < q < e_new.len() implies e_new[p].0@
                != e_new[q].0@ by {
                if q < e_new.len() - 1 {
                    assert(old_entries[p].0@ != old_entries[q].0@);
                } else {
                    assert(e_new[q].0@ == kw);
                    assert(old_entries[p].0@ != kw);
                }
            }
            assert forall|k: Seq<u8>|
                text_map_of(e_new).dom().contains(k) == old(self)@.insert(kw, tx).dom().contains(
                    k,
                ) by {
                if text_map_of(e_new).dom().contains(k) {
                    let j = choose|j: int| 0 <= j < e_new.len() && e_new[j].0@ == k;
                    if j < e_new.len() - 1 {
                        assert(old_entries[j].0@ == k);
                    } else {
                        assert(k == kw);
                    }
                }
                if old(self)@.insert(kw, tx).dom().contains(k) {
                    if k == kw {
                        assert(e_new[e_new.len() - 1].0@ == k);
                    } else {
                        let j = choose|j: int|
                            0 <= j < old_entries.len() && old_entries[j].0@ == k;
                        assert(e_new[j].0@ == k);
                    }
                }
            }
            assert forall|k: Seq<u8>|
                text_map_of(e_new).dom().contains(k) implies text_map_of(e_new)[k] == old(
                self,
            )@.insert(kw, tx)[k] by {
                if k == kw {
                    lemma_text_map_index(e_new, e_new.len() - 1);
                } else {
                    let j = choose|j: int| 0 <= j < old_entries.len() && old_entries[j].0@ == k;
                    assert(e_new[j].0@ == k);
                    lemma_text_map_index(e_new, j);
                    lemma_text_map_index(old_entries, j);
                }
            }
            assert(self@ =~= old(self)@.insert(kw, tx));
        }
    }
}

/// The binding a single entry contributes to the map: when keywords are
/// distinct, entry `i` binds its own keyword to its own text.
proof fn lemma_text_map_index(entries: Seq<(Vec<u8>, Vec<u8>)>, i: int)
    requires
        forall|p: int, q: int| 0 <= p < q < entries.len() ==> entries[p].0@ != entries[q].0@,
        0 <= i < entries.len(),
    ensures
        text_map_of(entries).dom().contains(entries[i].0@),
        text_map_of(entries)[entries[i].0@] == entries[i].1@,
{
    let k = entries[i].0@;
    assert(0 <= i < entries.len() && entries[i].0@ == k);
    let j = choose|j: int| 0 <= j < entries.len() && entries[j].0@ == k;
    if j != i {
        assert(false);
    }
}

/// When the keywords of `entries` are distinct, the map they hold has one
/// binding per entry.
proof fn lemma_text_map_len(entries: Seq<(Vec<u8>, Vec<u8>)>)
    requires
        forall|i: int, j: int| 0 <= i < j < entries.len() ==> entries[i].0@ != entries[j].0@,
    ensures
        text_map_of(entries).dom().finite(),
        text_map_of(entries).dom().len() == entries.len(),
    decreases entries.len(),
{
    if entries.len() == 0 {
        assert(text_map_of(entries).dom() =~= Set::<Seq<u8>>::empty());
    } else {
        let prefix = entries.drop_last();
        lemma_text_map_len(prefix);
        let last = entries.last();
        assert forall|k: Seq<u8>|
            text_map_of(entries).dom().contains(k) == text_map_of(prefix).dom().insert(
                last.0@,
            ).contains(k) by {
            if text_map_of(entries).dom().contains(k) {
                let j = choose|j: int| 0 <= j < entries.len() && entries[j].0@ == k;
                if j < entries.len() - 1 {
                    assert(prefix[j].0@ == k);
                }
            }
            if text_map_of(prefix).dom().contains(k) {
                let j = choose|j: int| 0 <= j < prefix.len() && prefix[j].0@ == k;
                assert(entries[j].0@ == k);
            }
            if k == last.0@ {
                assert(entries[entries.len() - 1].0@ == k);
            }
        }
        assert(text_map_of(entries).dom() =~= text_map_of(prefix).dom().insert(last.0@));
        assert(!text_map_of(prefix).dom().contains(last.0@));
        vstd::set::axiom_set_insert_len(text_map_of(prefix).dom(), last.0@);
    }
}

/// Byte-for-byte comparison of two slices.
fn bytes_eq(a: &[u8], b: &[u8]) -> (r: bool)
    ensures
        r == (a@ == b@),
{
    if a.len() != b.len() {
        assert(a@.len() != b@.len());
        return false;
    }
    let n = a.len();
    let mut i: usize = 0;
    while i < n
        invariant
            0 <= i <= n,
            n == a@.len() == b@.len(),
            forall|j: int| 0 <= j < i ==> a@[j] == b@[j],
        decreases n - i,
    {
        if a[i] != b[i] {
            return false;
        }
        i = i + 1;
    }
    proof {
        assert(a@ =~= b@);
    }
    true
}

/// A semantic record carried by one chunk of the stream, after its checksum
/// has been validated.
#[derive(Debug)]
pub enum Chunk {
    ImageHeader(ImageHeader),
    /// The raw palette payload: a whole number of red-green-blue triples.
    Palette(Vec<u8>),
    /// One run of compressed pixel data, in file order.
    ImageData(Vec<u8>),
    /// The accumulated keyword-to-text metadata.
    TextData(TextData),
    /// Gamma scaled by 100,000; 0 is a sentinel meaning absent.
    Gamma(u32),
}

/// The spec-level value of a chunk record.
pub enum ChunkModel {
    ImageHeader(ImageHeader),
    Palette(Seq<u8>),
    ImageData(Seq<u8>),
    TextData(Map<Seq<u8>, Seq<u8>>),
    Gamma(u32),
}

impl View for Chunk {
    type V = ChunkModel;

    open spec fn view(&self) -> ChunkModel {
        match self {
            Chunk::ImageHeader(h) => ChunkModel::ImageHeader(*h),
            Chunk::Palette(p) => ChunkModel::Palette(p@),
            Chunk::ImageData(d) => ChunkModel::ImageData(d@),
            Chunk::TextData(t) => ChunkModel::TextData(t@),
            Chunk::Gamma(g) => ChunkModel::Gamma(*g),
        }
    }
}

/// The spec-level value of a decoded image.
pub struct PngModel {
    pub width: u32,
    pub height: u32,
    pub gamma: u32,
    pub color_type: ColorType,
    pub pixel_buffer: Seq<u8>,
}

/// A fully decoded image: header facts plus the flat, row-major pixel
/// buffer. Produced only by a successful decode.
#[derive(Debug)]
pub struct Png {
    pub width: u32,
    pub height: u32,
    /// Gamma scaled by 100,000; 0 means the stream carried no gamma record.
    pub gamma: u32,
    pub color_type: ColorType,
    pub pixel_buffer: Vec<u8>,
}

impl View for Png {
    type V = PngModel;

    open spec fn view(&self) -> PngModel {
        PngModel {
            width: self.width,
            height: self.height,
            gamma: self.gamma,
            color_type: self.color_type,
            pixel_buffer: self.pixel_buffer@,
        }
    }
}

impl PartialEq for Png {
    fn eq(&self, other: &Png) -> (r: bool) {
        let pixels_eq = self.pixel_buffer == other.pixel_buffer;
        proof {
            if pixels_eq {
                assert(self.pixel_buffer@ =~= other.pixel_buffer@);
            } else {
                if self.pixel_buffer@ == other.pixel_buffer@ {
                    assert(forall|i: int|
                        0 <= i < self.pixel_buffer@.len() ==> self.pixel_buffer@[i]
                            == other.pixel_buffer@[i]);
                    assert(false);
                }
            }
        }
        self.width == other.width && self.height == other.height && self.gamma == other.gamma
            && self.color_type == other.color_type && pixels_eq
    }
}

impl Eq for Png {

}

impl vstd::std_specs::cmp::PartialEqSpecImpl for Png {
    open spec fn obeys_eq_spec() -> bool {
        true
    }

    open spec fn eq_spec(&self, other: &Png) -> bool {
        self@ == other@
    }
}

impl Png {
    pub fn width(&self) -> (w: u32)
        ensures
            w == self@.width,
    {
        self.width
    }

    pub fn height(&self) -> (h: u32)
        ensures
            h == self@.height,
    {
        self.height
    }

    /// The dimensions of the image (width, height).
    pub fn dimensions(&self) -> (d: (u32, u32))
        ensures
            d.0 == self@.width,
            d.1 == self@.height,
    {
        (self.width, self.height)
    }

    pub fn gamma(&self) -> (g: u32)
        ensures
            g == self@.gamma,
    {
        self.gamma
    }

    pub fn color_type(&self) -> (c: ColorType)
        ensures
            c == self@.color_type,
    {
        self.color_type
    }

    /// The image as packed red-green-blue bytes, three per pixel; gray and
    /// alpha-carrying layouts are reindexed, and alpha is dropped.
    #[verifier::loop_isolation(false)]
    pub fn to_rgb8(&self) -> (r: Vec<u8>)
        requires
            self@.color_type != ColorType::Palette,
        ensures
            r@ == rgb8_spec(self@),
    {
        match self.color_type {
            ColorType::RGB => {
                let r = vstd::slice::slice_to_vec(self.pixel_buffer.as_slice());
                proof {
                    assert(r@ =~= rgb8_spec(self@));
                }
                r
            },
            ColorType::RGBA => {
                let pixels = self.pixel_buffer.len() / 4;
                let mut out: Vec<u8> = Vec::new();
                let mut p: usize = 0;
                while p < pixels
                    invariant
                        0 <= p <= pixels,
                        pixels == self.pixel_buffer@.len() as int / 4,
                        out@.len() == 3 * p,
                        forall|k: int|
                            0 <= k < out@.len() ==> out@[k] == self.pixel_buffer@[(k / 3) * 4 + k
                                % 3],
                    decreases pixels - p,
                {
                    proof {
                        lemma_pixel_index(p as int, 4, self.pixel_buffer@.len() as int);
                    }
                    out.push(self.pixel_buffer[4 * p]);
                    out.push(self.pixel_buffer[4 * p + 1]);
                    out.push(self.pixel_buffer[4 * p + 2]);
                    p = p + 1;
                }
                proof {
                    assert(out@ =~= rgb8_spec(self@));
                }
                out
            },
            ColorType::GrayscaleAlpha => {
                let pixels = self.pixel_buffer.len() / 2;
                let mut out: Vec<u8> = Vec::new();
                let mut p: usize = 0;
                while p < pixels
                    invariant
                        0 <= p <= pixels,
                        pixels == self.pixel_buffer@.len() as int / 2,
                        out@.len() == 3 * p,
                        forall|k: int|
                            0 <= k < out@.len() ==> out@[k] == self.pixel_buffer@[(k / 3) * 2],
                    decreases pixels - p,
                {
                    proof {
                        lemma_pixel_index(p as int, 2, self.pixel_buffer@.len() as int);
                    }
                    let y = self.pixel_buffer[2 * p];
                    out.push(y);
                    out.push(y);
                    out.push(y);
                    p = p + 1;
                }
                proof {
                    assert(out@ =~= rgb8_spec(self@));
                }
                out
            },
            ColorType::Grayscale => {
                let pixels = self.pixel_buffer.len();
                let mut out: Vec<u8> = Vec::new();
                let mut p: usize = 0;
                while p < pixels
                    invariant
                        0 <= p <= pixels,
                        pixels == self.pixel_buffer@.len(),
                        out@.len() == 3 * p,
                        forall|k: int| 0 <= k < out@.len() ==> out@[k] == self.pixel_buffer@[k / 3],
                    decreases pixels - p,
                {
                    proof {
                        lemma_pixel_index(p as int, 1, self.pixel_buffer@.len() as int);
                    }
                    let y = self.pixel_buffer[p];
                    out.push(y);
                    out.push(y);
                    out.push(y);
                    p = p + 1;
                }
                proof {
                    assert(out@ =~= rgb8_spec(self@));
                }
                out
            },
            ColorType::Palette => {
                proof {
                    assert(false);
                }
                Vec::new()
            },
        }
    }

    /// The image as packed red-green-blue-alpha bytes, four per pixel; a
    /// layout without an alpha channel gets alpha 0.
    #[verifier::loop_isolation(false)]
    pub fn to_rgba8(&self) -> (r: Vec<u8>)
        requires
            self@.color_type != ColorType::Palette,
        ensures
            r@ == rgba8_spec(self@),
    {
        match self.color_type {
            ColorType::RGBA => {
                let r = vstd::slice::slice_to_vec(self.pixel_buffer.as_slice());
                proof {
                    assert(r@ =~= rgba8_spec(self@));
                }
                r
            },
            ColorType::RGB => {
                let pixels = self.pixel_buffer.len() / 3;
                let mut out: Vec<u8> = Vec::new();
                let mut p: usize = 0;
                while p < pixels
                    invariant
                        0 <= p <= pixels,
                        pixels == self.pixel_buffer@.len() as int / 3,
                        out@.len() == 4 * p,
                        forall|k: int|
                            0 <= k < out@.len() ==> out@[k] == (if k % 4 == 3 {
                                0u8
                            } else {
                                self.pixel_buffer@[(k / 4) * 3 + k % 4]
                            }),
                    decreases pixels - p,
                {
                    proof {
                        lemma_pixel_index(p as int, 3, self.pixel_buffer@.len() as int);
                    }
                    out.push(self.pixel_buffer[3 * p]);
                    out.push(self.pixel_buffer[3 * p + 1]);
                    out.push(self.pixel_buffer[3 * p + 2]);
                    out.push(0);
                    p = p + 1;
                }
                proof {
                    assert(out@ =~= rgba8_spec(self@));
                }
                out
            },
            ColorType::Grayscale => {
                let pixels = self.pixel_buffer.len();
                let mut out: Vec<u8> = Vec::new();
                let mut p: usize = 0;
                while p < pixels
                    invariant
                        0 <= p <= pixels,
                        pixels == self.pixel_buffer@.len(),
                        out@.len() == 4 * p,
                        forall|k: int|
                            0 <= k < out@.len() ==> out@[k] == (if k % 4 == 3 {
                                0u8
                            } else {
                                self.pixel_buffer@[k / 4]
                            }),
                    decreases pixels - p,
                {
                    proof {
                        lemma_pixel_index(p as int, 1, self.pixel_buffer@.len() as int);
                    }
                    let y = self.pixel_buffer[p];
                    out.push(y);
                    out.push(y);
                    out.push(y);
                    out.push(0);
                    p = p + 1;
                }
                proof {
                    assert(out@ =~= rgba8_spec(self@));
                }
                out
            },
            ColorType::GrayscaleAlpha => {
                let pixels = self.pixel_buffer.len() / 2;
                let mut out: Vec<u8> = Vec::new();
                let mut p: usize = 0;
                while p < pixels
                    invariant
                        0 <= p <= pixels,
                        pixels == self.pixel_buffer@.len() as int / 2,
                        out@.len() == 4 * p,
                        forall|k: int|
                            0 <= k < out@.len() ==> out@[k] == (if k % 4 == 3 {
                                self.pixel_buffer@[(k / 4) * 2 + 1]
                            } else {
                                self.pixel_buffer@[(k / 4) * 2]
                            }),
                    decreases pixels - p,
                {
                    proof {
                        lemma_pixel_index(p as int, 2, self.pixel_buffer@.len() as int);
                    }
                    let y = self.pixel_buffer[2 * p];
                    let a = self.pixel_buffer[2 * p + 1];
                    out.push(y);
                    out.push(y);
                    out.push(y);
                    out.push(a);
                    p = p + 1;
                }
                proof {
                    assert(out@ =~= rgba8_spec(self@));
                }
                out
            },
            ColorType::Palette => {
                proof {
                    assert(false);
                }
                Vec::new()
            },
        }
    }
}

impl Png {
    /// The image as one packed 32-bit word per pixel: alpha in the top byte
    /// (0 where the layout has none), then red, green, and blue.
    #[verifier::loop_isolation(false)]
    pub fn to_bitmap(&self) -> (r: Vec<u32>)
        requires
            self@.color_type != ColorType::Palette,
        ensures
            r@ == bitmap_spec(self@),
    {
        match self.color_type {
            ColorType::RGB => {
                let pixels = self.pixel_buffer.len() / 3;
                let mut out: Vec<u32> = Vec::new();
                let mut p: usize = 0;
                while p < pixels
                    invariant
                        0 <= p <= pixels,
                        out@.len() == p,
                        forall|k: int| 0 <= k < p ==> out@[k] == bitmap_spec(self@)[k],
                    decreases pixels - p,
                {
                    proof {
                        lemma_pixel_index(p as int, 3, self.pixel_buffer@.len() as int);
                    }
                    let v = (self.pixel_buffer[3 * p] as u32) * 0x1_0000 + (self.pixel_buffer[3 * p
                        + 1] as u32) * 0x100 + (self.pixel_buffer[3 * p + 2] as u32);
                    out.push(v);
                    p = p + 1;
                }
                proof {
                    assert(out@ =~= bitmap_spec(self@));
                }
                out
            },
            ColorType::RGBA => {
                let pixels = self.pixel_buffer.len() / 4;
                let mut out: Vec<u32> = Vec::new();
                let mut p: usize = 0;
                while p < pixels
                    invariant
                        0 <= p <= pixels,
                        out@.len() == p,
                        forall|k: int| 0 <= k < p ==> out@[k] == bitmap_spec(self@)[k],
                    decreases pixels - p,
                {
                    proof {
                        lemma_pixel_index(p as int, 4, self.pixel_buffer@.len() as int);
                    }
                    let v = (self.pixel_buffer[4 * p + 3] as u32) * 0x100_0000 + (
                    self.pixel_buffer[4 * p] as u32) * 0x1_0000 + (self.pixel_buffer[4 * p
                        + 1] as u32) * 0x100 + (self.pixel_buffer[4 * p + 2] as u32);
                    out.push(v);
                    p = p + 1;
                }
                proof {
                    assert(out@ =~= bitmap_spec(self@));
                }
                out
            },
            ColorType::Grayscale => {
                let pixels = self.pixel_buffer.len();
                let mut out: Vec<u32> = Vec::new();
                let mut p: usize = 0;
                while p < pixels
                    invariant
                        0 <= p <= pixels,
                        out@.len() == p,
                        forall|k: int| 0 <= k < p ==> out@[k] == bitmap_spec(self@)[k],
                    decreases pixels - p,
                {
                    let y = self.pixel_buffer[p] as u32;
                    out.push(y * 0x1_0000 + y * 0x100 + y);
                    p = p + 1;
                }
                proof {
                    assert(out@ =~= bitmap_spec(self@));
                }
                out
            },
            ColorType::GrayscaleAlpha => {
                let pixels = self.pixel_buffer.len() / 2;
                let mut out: Vec<u32> = Vec::new();
                let mut p: usize = 0;
                while p < pixels
                    invariant
                        0 <= p <= pixels,
                        out@.len() == p,
                        forall|k: int| 0 <= k < p ==> out@[k] == bitmap_spec(self@)[k],
                    decreases pixels - p,
                {
                    proof {
                        lemma_pixel_index(p as int, 2, self.pixel_buffer@.len() as int);
                    }
                    let y = self.pixel_buffer[2 * p] as u32;
                    let a = self.pixel_buffer[2 * p + 1] as u32;
                    out.push(a * 0x100_0000 + y * 0x1_0000 + y * 0x100 + y);
                    p = p + 1;
                }
                proof {
                    assert(out@ =~= bitmap_spec(self@));
                }
                out
            },
            ColorType::Palette => {
                proof {
                    assert(false);
                }
                Vec::new()
            },
        }
    }
}

/// The packed one-word-per-pixel layout of an image: alpha (or 0), red,
/// green, blue, most significant first.
pub open spec fn bitmap_spec(p: PngModel) -> Seq<u32> {
    let buf = p.pixel_buffer;
    match p.color_type {
        ColorType::RGB => Seq::new(
            (buf.len() / 3) as nat,
            |k: int| (buf[3 * k] * 0x1_0000 + buf[3 * k + 1] * 0x100 + buf[3 * k + 2]) as u32,
        ),
        ColorType::RGBA => Seq::new(
            (buf.len() / 4) as nat,
            |k: int|
                (buf[4 * k + 3] * 0x100_0000 + buf[4 * k] * 0x1_0000 + buf[4 * k + 1] * 0x100
                    + buf[4 * k + 2]) as u32,
        ),
        ColorType::Grayscale => Seq::new(
            buf.len(),
            |k: int| (buf[k] * 0x1_0000 + buf[k] * 0x100 + buf[k]) as u32,
        ),
        ColorType::GrayscaleAlpha => Seq::new(
            (buf.len() / 2) as nat,
            |k: int|
                (buf[2 * k + 1] * 0x100_0000 + buf[2 * k] * 0x1_0000 + buf[2 * k] * 0x100 + buf[2
                    * k]) as u32,
        ),
        ColorType::Palette => Seq::empty(),
    }
}

/// A whole pixel's bytes stay inside the buffer: byte arithmetic used by the
/// layout conversions.
proof fn lemma_pixel_index(p: int, stride: int, len: int)
    requires
        stride >= 1,
        0 <= p < len / stride,
    ensures
        stride * p + stride <= len,
        forall|k: int|
            3 * p <= k < 3 * p + 3 ==> #[trigger] (k / 3) == p && k % 3 == k - 3 * p,
        forall|k: int|
            4 * p <= k < 4 * p + 4 ==> #[trigger] (k / 4) == p && k % 4 == k - 4 * p,
{
    assert(stride * p + stride <= len) by (nonlinear_arith)
        requires
            stride >= 1,
            0 <= p < len / stride,
    ;
    assert forall|k: int| 3 * p <= k < 3 * p + 3 implies #[trigger] (k / 3) == p && k % 3 == k - 3
        * p by {
        assert(k / 3 == p && k % 3 == k - 3 * p) by (nonlinear_arith)
            requires
                3 * p <= k < 3 * p + 3,
        ;
    }
    assert forall|k: int| 4 * p <= k < 4 * p + 4 implies #[trigger] (k / 4) == p && k % 4 == k - 4
        * p by {
        assert(k / 4 == p && k % 4 == k - 4 * p) by (nonlinear_arith)
            requires
                4 * p <= k < 4 * p + 4,
        ;
    }
}

/// The packed three-byte-per-pixel layout of an image.
pub open spec fn rgb8_spec(p: PngModel) -> Seq<u8> {
    let buf = p.pixel_buffer;
    match p.color_type {
        ColorType::RGB => buf,
        ColorType::RGBA => Seq::new(((buf.len() / 4) * 3) as nat, |k: int| buf[(k / 3) * 4 + k % 3]),
        ColorType::GrayscaleAlpha => Seq::new(
            ((buf.len() / 2) * 3) as nat,
            |k: int| buf[(k / 3) * 2],
        ),
        ColorType::Grayscale => Seq::new((buf.len() * 3) as nat, |k: int| buf[k / 3]),
        ColorType::Palette => Seq::empty(),
    }
}

/// The packed four-byte-per-pixel layout of an image; a missing alpha
/// channel reads as 0.
pub open spec fn rgba8_spec(p: PngModel) -> Seq<u8> {
    let buf = p.pixel_buffer;
    match p.color_type {
        ColorType::RGBA => buf,
        ColorType::RGB => Seq::new(
            ((buf.len() / 3) * 4) as nat,
            |k: int|
                if k % 4 == 3 {
                    0u8
                } else {
                    buf[(k / 4) * 3 + k % 4]
                },
        ),
        ColorType::Grayscale => Seq::new(
            (buf.len() * 4) as nat,
            |k: int|
                if k % 4 == 3 {
                    0u8
                } else {
                    buf[k / 4]
                },
        ),
        ColorType::GrayscaleAlpha => Seq::new(
            ((buf.len() / 2) * 4) as nat,
            |k: int|
                if k % 4 == 3 {
                    buf[(k / 4) * 2 + 1]
                } else {
                    buf[(k / 4) * 2]
                },
        ),
        ColorType::Palette => Seq::empty(),
    }
}

} // verus!
