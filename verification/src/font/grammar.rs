//! The data model of the font-outline container: the table directory, the
//! fixed tables, the character-map subtables, and glyph outlines.

use crate::grammar::DecodeError;
use vstd::prelude::*;

verus! {

pub type ShortFrac = i16;

pub type Fixed = i32;

pub type FWord = i16;

pub type UnsignedFWord = u16;

pub type F2Dot14 = i16;

pub type LongDateTime = i64;

/// A whole parsed font file: the directory and the required tables.
#[derive(Debug)]
pub struct TrueTypeFontFile {
    pub font_directory: FontDirectory,
    pub head_table: HeadTable,
    pub hhea_table: HHeaTable,
    pub maxp_table: MaxPTable,
    pub loca_table: Vec<u32>,
    pub hmtx_table: HMtxTable,
    pub cmap_table: CMapTable,
    pub glyph_table: GlyphTable,
}

/// The table directory: each tag bound to the record locating its table.
/// Tags are unique, in file order.
#[derive(Debug)]
pub struct FontDirectory {
    pub offset_sub_table: OffsetSubTable,
    pub table_directory: Vec<(TableTag, TableRecord)>,
}

/// The record some entry binds to `tag`, if any entry carries it.
pub open spec fn spec_find_table(entries: Seq<(TableTag, TableRecord)>, tag: TableTag) -> Option<
    TableRecord,
>
    decreases entries.len(),
{
    if entries.len() == 0 {
        None
    } else if entries[0].0 == tag {
        Some(entries[0].1)
    } else {
        spec_find_table(entries.skip(1), tag)
    }
}

impl FontDirectory {
    /// Look a table's record up by its tag.
    pub fn get_table_record(&self, table_tag: &TableTag) -> (r: Result<&TableRecord, DecodeError>)
        ensures
            match r {
                Ok(rec) => spec_find_table(self.table_directory@, *table_tag) == Some(*rec),
                Err(e) => e == DecodeError::Structure && spec_find_table(
                    self.table_directory@,
                    *table_tag,
                ) is None,
            },
    {
        let n = self.table_directory.len();
        let mut i: usize = 0;
        proof {
            assert(self.table_directory@.skip(0) =~= self.table_directory@);
        }
        while i < n
            invariant
                0 <= i <= n,
                n == self.table_directory@.len(),
                spec_find_table(self.table_directory@, *table_tag) == spec_find_table(
                    self.table_directory@.skip(i as int),
                    *table_tag,
                ),
            decreases n - i,
        {
            proof {
                assert(self.table_directory@.skip(i as int)[0] == self.table_directory@[i as int]);
                assert(self.table_directory@.skip(i as int).skip(1) =~= self.table_directory@.skip(
                    i + 1,
                ));
            }
            if tag_matches(&self.table_directory[i].0, table_tag) {
                return Ok(&self.table_directory[i].1);
            }
            i = i + 1;
        }
        proof {
            assert(self.table_directory@.skip(n as int).len() == 0);
        }
        Err(DecodeError::Structure)
    }
}

/// Whether two table tags are the same tag.
fn tag_matches(a: &TableTag, b: &TableTag) -> (r: bool)
    ensures
        r == (a == b),
{
    match (a, b) {
        (TableTag::CMap, TableTag::CMap) => true,
        (TableTag::Glyf, TableTag::Glyf) => true,
        (TableTag::Head, TableTag::Head) => true,
        (TableTag::HHea, TableTag::HHea) => true,
        (TableTag::HMtx, TableTag::HMtx) => true,
        (TableTag::Loca, TableTag::Loca) => true,
        (TableTag::MaxP, TableTag::MaxP) => true,
        (TableTag::Name, TableTag::Name) => true,
        (TableTag::Post, TableTag::Post) => true,
        (TableTag::CVT, TableTag::CVT) => true,
        (TableTag::FPgm, TableTag::FPgm) => true,
        (TableTag::HDMx, TableTag::HDMx) => true,
        (TableTag::Kern, TableTag::Kern) => true,
        (TableTag::OS2, TableTag::OS2) => true,
        (TableTag::Prep, TableTag::Prep) => true,
        (TableTag::Foreign(x), TableTag::Foreign(y)) => {
            let eq = x[0] == y[0] && x[1] == y[1] && x[2] == y[2] && x[3] == y[3];
            proof {
                if eq {
                    assert(x@ =~= y@);
                    assert(x == y);
                }
            }
            eq
        },
        _ => false,
    }
}

/// The font's outline technology, from the directory's scalar type field.
#[derive(Debug, Clone, Copy, PartialEq, Eq, Structural)]
pub enum ScalarType {
    TrueType,
    PostScript,
    OpenType,
}

impl ScalarType {
    /// The scalar type a four-byte field names, if recognized.
    pub open spec fn spec_from_bytes(value: Seq<u8>) -> Option<ScalarType> {
        if value == seq![0x74u8, 0x72u8, 0x75u8, 0x65u8] || value == seq![
            0x00u8,
            0x01u8,
            0x00u8,
            0x00u8,
        ] {
            Some(ScalarType::TrueType)
        } else if value == seq![0x74u8, 0x79u8, 0x70u8, 0x31u8] {
            Some(ScalarType::PostScript)
        } else if value == seq![0x4fu8, 0x54u8, 0x54u8, 0x4fu8] {
            Some(ScalarType::OpenType)
        } else {
            None
        }
    }

    pub fn try_from_bytes(value: &[u8]) -> (r: Option<ScalarType>)
        requires
            value@.len() == 4,
        ensures
            r == ScalarType::spec_from_bytes(value@),
    {
        // "true" or the fixed version 1.0
        if value[0] == 0x74 && value[1] == 0x72 && value[2] == 0x75 && value[3] == 0x65 {
            proof {
                assert(value@ =~= seq![0x74u8, 0x72u8, 0x75u8, 0x65u8]);
            }
            Some(ScalarType::TrueType)
        } else if value[0] == 0x00 && value[1] == 0x01 && value[2] == 0x00 && value[3] == 0x00 {
            proof {
                assert(value@ =~= seq![0x00u8, 0x01u8, 0x00u8, 0x00u8]);
            }
            Some(ScalarType::TrueType)
        } else if value[0] == 0x74 && value[1] == 0x79 && value[2] == 0x70 && value[3] == 0x31 {
            // "typ1"
            proof {
                assert(value@ =~= seq![0x74u8, 0x79u8, 0x70u8, 0x31u8]);
            }
            Some(ScalarType::PostScript)
        } else if value[0] == 0x4f && value[1] == 0x54 && value[2] == 0x54 && value[3] == 0x4f {
            // "OTTO"
            proof {
                assert(value@ =~= seq![0x4fu8, 0x54u8, 0x54u8, 0x4fu8]);
            }
            Some(ScalarType::OpenType)
        } else {
            proof {
                assert(value@ != seq![0x74u8, 0x72u8, 0x75u8, 0x65u8]);
                assert(value@ != seq![0x00u8, 0x01u8, 0x00u8, 0x00u8]);
                assert(value@ != seq![0x74u8, 0x79u8, 0x70u8, 0x31u8]);
                assert(value@ != seq![0x4fu8, 0x54u8, 0x54u8, 0x4fu8]);
            }
            None
        }
    }
}

/// The fixed header of the table directory.
#[derive(Debug)]
pub struct OffsetSubTable {
    pub scalar_type: ScalarType,
    pub num_tables: u16,
    pub search_range: u16,
    pub entry_selector: u16,
    pub range_shift: u16,
}

/// A four-byte table tag, with the well-known tags named.
#[derive(Debug, Clone, Copy)]
pub enum TableTag {
    CMap,
    Glyf,
    Head,
    HHea,
    HMtx,
    Loca,
    MaxP,
    Name,
    Post,
    // Optional tags below
    CVT,
    FPgm,
    HDMx,
    Kern,
    OS2,
    Prep,
    Foreign([u8; 4]),
}

impl TableTag {
    /// Whether every conforming font must carry this table.
    pub fn is_required(&self) -> (r: bool)
        ensures
            r == matches!(
                self,
                TableTag::CMap | TableTag::Glyf | TableTag::Head | TableTag::HHea | TableTag::HMtx
                    | TableTag::Loca | TableTag::MaxP | TableTag::Name | TableTag::Post
            ),
    {
        match self {
            TableTag::CMap
            | TableTag::Glyf
            | TableTag::Head
            | TableTag::HHea
            | TableTag::HMtx
            | TableTag::Loca
            | TableTag::MaxP
            | TableTag::Name
            | TableTag::Post => true,
            _ => false,
        }
    }
}

/// Where a table lies in the file.
#[derive(Debug, Clone, Copy, PartialEq, Eq, Structural)]
pub struct TableRecord {
    pub checksum: u32,
    pub offset: u32,
    pub length: u32,
}

/// The character map: each recognized subtable with the platforms that
/// point at it.
#[derive(Debug)]
pub struct CMapTable {
    pub subtables: Vec<(CMapSubtable, Vec<PlatformDouble>)>,
}

impl CMapTable {
    /// The first format-4 subtable, if any.
    pub fn format_4(&self) -> (r: Option<&CMapFormat4>)
        ensures
            match r {
                Some(c) => first_format_4(self.subtables@) == Some(*c),
                None => first_format_4(self.subtables@) is None,
            },
    {
        let n = self.subtables.len();
        let mut i: usize = 0;
        proof {
            assert(self.subtables@.skip(0) =~= self.subtables@);
        }
        while i < n
            invariant
                0 <= i <= n,
                n == self.subtables@.len(),
                first_format_4(self.subtables@) == first_format_4(self.subtables@.skip(i as int)),
            decreases n - i,
        {
            proof {
                assert(self.subtables@.skip(i as int)[0] == self.subtables@[i as int]);
                assert(self.subtables@.skip(i as int).skip(1) =~= self.subtables@.skip(i + 1));
            }
            match &self.subtables[i].0 {
                CMapSubtable::Four(cmap_4) => {
                    return Some(cmap_4);
                },
                _ => {},
            }
            i = i + 1;
        }
        proof {
            assert(self.subtables@.skip(n as int).len() == 0);
        }
        None
    }
}

/// One recognized character-map subtable.
#[derive(Debug)]
pub enum CMapSubtable {
    Zero(CMapFormat0),
    Four(CMapFormat4),
    Twelve(CMapFormat12),
}

/// Format 0: a flat byte-indexed glyph table.
#[derive(Debug)]
pub struct CMapFormat0 {
    pub language: u16,
    pub glyph_index_array: Vec<u8>,
}

/// Format 2: high-byte subheaders (kept for completeness; not parsed).
#[derive(Debug)]
pub struct CMapFormat2 {
    pub language: u16,
    pub subheader_keys: Vec<u16>,
    pub subheaders: Vec<CMapSubHeader>,
    pub glyph_index_array: Vec<u16>,
}

#[derive(Debug)]
pub struct CMapSubHeader {
    pub first_code: u16,
    pub entry_count: u16,
    pub id_delta: i16,
    pub id_range_offset: u16,
}

/// Format 4: segmented coverage over the basic plane.
#[derive(Debug)]
pub struct CMapFormat4 {
    pub language: u16,
    pub seg_count_x2: u16,
    pub search_range: u16,
    pub entry_selector: u16,
    pub range_shift: u16,
    pub end_codes: Vec<u16>,
    pub start_codes: Vec<u16>,
    pub id_deltas: Vec<u16>,
    pub id_range_offset: Vec<u16>,
    pub glyph_index_array: Vec<u16>,
}

/// The first segment whose end code is at or above `code`, or the segment
/// count when there is none.
pub open spec fn spec_segment_of(end_codes: Seq<u16>, code: u16, i: int) -> int
    decreases end_codes.len() - i,
{
    if i < 0 || i >= end_codes.len() {
        end_codes.len() as int
    } else if end_codes[i] >= code {
        i
    } else {
        spec_segment_of(end_codes, code, i + 1)
    }
}

/// The glyph index a well-formed format-4 subtable maps a basic-plane code
/// to: the segment's delta arithmetic, 0 when the code is below the segment,
/// or the range-offset arithmetic when the segment uses one.
pub open spec fn spec_glyph_index(c4: CMapFormat4, code: u16) -> int {
    let i = spec_segment_of(c4.end_codes@, code, 0);
    if c4.start_codes@[i] > code {
        0int
    } else if c4.id_range_offset@[i] == 0 {
        (c4.id_deltas@[i] + code) % 0x10000
    } else {
        c4.id_range_offset@[i] + c4.id_range_offset@[i] / 2 + (code - c4.start_codes@[i])
    }
}

/// The first format-4 subtable of a subtable list.
pub open spec fn first_format_4(subs: Seq<(CMapSubtable, Vec<PlatformDouble>)>) -> Option<
    CMapFormat4,
>
    decreases subs.len(),
{
    if subs.len() == 0 {
        None
    } else {
        match subs[0].0 {
            CMapSubtable::Four(c4) => Some(c4),
            _ => first_format_4(subs.skip(1)),
        }
    }
}

impl CMapFormat4 {
    /// The four segment arrays run in parallel, and the last end code is the
    /// highest possible code, so every lookup lands in a segment.
    pub open spec fn wf(self) -> bool {
        &&& self.end_codes@.len() >= 1
        &&& self.end_codes@.last() == 0xffffu16
        &&& self.start_codes@.len() == self.end_codes@.len()
        &&& self.id_deltas@.len() == self.end_codes@.len()
        &&& self.id_range_offset@.len() == self.end_codes@.len()
    }

    /// The glyph index a basic-plane character maps to: its segment's delta
    /// arithmetic, 0 (the missing glyph) when the character is below the
    /// segment, or the range-offset arithmetic when the segment uses one.
    pub fn find_glyph_index(&self, ch: char) -> (r: usize)
        requires
            self.wf(),
            ch as int <= 0xffff,
        ensures
            0 <= spec_segment_of(self.end_codes@, ch as u16, 0) < self.end_codes@.len(),
            r == spec_glyph_index(*self, ch as u16),
    {
        let char_code = ch as u16;

        // Search for the first end code at or above the character code.
        let n = self.end_codes.len();
        let mut i: usize = 0;
        let ghost ec = self.end_codes@;
        while i < n && self.end_codes[i] < char_code
            invariant
                0 <= i <= n,
                n == ec.len(),
                self.end_codes@ == ec,
                forall|j: int| 0 <= j < i ==> ec[j] < char_code,
                spec_segment_of(ec, char_code, 0) == spec_segment_of(ec, char_code, i as int),
            decreases n - i,
        {
            i = i + 1;
        }
        proof {
            assert(ec.last() == 0xffffu16);
            if i == n {
                assert(ec[n - 1] < char_code);
                assert(false);
            }
            assert(spec_segment_of(ec, char_code, i as int) == i);
        }

        let start_code = self.start_codes[i];

        if start_code > char_code {
            // The missing-character glyph.
            return 0;
        }

        let id_range_offset = self.id_range_offset[i];

        if id_range_offset == 0 {
            return ((self.id_deltas[i] as u32 + char_code as u32) % 0x10000) as usize;
        }

        id_range_offset as usize + (id_range_offset / 2) as usize + (char_code - start_code) as usize
    }
}

/// Format 6: a dense trimmed range (kept for completeness; not parsed).
#[derive(Debug)]
pub struct CMapFormat6 {
    pub language: u16,
    pub first_code: u16,
    pub glyph_index_array: Vec<u16>,
}

/// Format 8: mixed 16- and 32-bit coverage (kept for completeness; not
/// parsed).
#[derive(Debug)]
pub struct CMapFormat8 {
    pub language: u32,
    pub is_32: Vec<u8>,
    pub groups: Vec<CMapIndividualGroup>,
}

/// One contiguous character-to-glyph group.
#[derive(Debug, Clone, Copy, PartialEq, Eq, Structural)]
pub struct CMapIndividualGroup {
    pub start_char_code: u32,
    pub end_char_code: u32,
    pub start_glyph_code: u32,
}

/// Format 10: a trimmed 32-bit array (kept for completeness; not parsed).
#[derive(Debug)]
pub struct CMapFormat10 {
    pub language: u32,
    pub start_char_code: u32,
    pub num_chars: u32,
    pub glyphs: Vec<u16>,
}

/// Format 12: segmented 32-bit coverage.
#[derive(Debug)]
pub struct CMapFormat12 {
    pub language: u32,
    pub groups: Vec<CMapIndividualGroup>,
}

/// Format 14: variation selectors (kept for completeness; not parsed).
#[derive(Debug)]
pub struct CMapFormat14 {
    pub records: Vec<VariationSelectorRecord>,
}

#[derive(Debug, Clone, Copy, PartialEq, Eq, Structural)]
pub struct VariationSelectorRecord {
    // stored as a 24-bit value
    pub variation_selector: u32,
    pub default_uvs_offset: u32,
    pub non_default_uvs_offset: u32,
}

#[derive(Debug)]
pub struct DefaultUVSTable {
    pub unicode_value_ranges: Vec<UnicodeValueRange>,
}

#[derive(Debug, Clone, Copy, PartialEq, Eq, Structural)]
pub struct UnicodeValueRange {
    // stored as a 24-bit value
    pub start_unicode_value: u32,
    pub additional_count: u8,
}

#[derive(Debug)]
pub struct NonDefaultUVSTable {
    pub uvs_mappings: Vec<UnicodeValueMap>,
}

#[derive(Debug, Clone, Copy, PartialEq, Eq, Structural)]
pub struct UnicodeValueMap {
    // stored as a 24-bit value
    pub unicode_value: u32,
    pub glyph_id: u16,
}

/// A platform and its platform-specific encoding identifier.
#[derive(Debug, Clone, Copy, PartialEq, Eq, Structural)]
pub struct PlatformDouble {
    pub platform: Platform,
    pub platform_specific_id: u16,
}

/// The platform a character-map subtable is declared for.
#[derive(Debug, Clone, Copy, PartialEq, Eq, Structural)]
pub enum Platform {
    Unicode,
    Macintosh,
    Microsoft,
}

impl Platform {
    /// The platform a 16-bit identifier names; 2 is reserved and everything
    /// past 3 is foreign.
    pub open spec fn spec_from_u16(value: u16) -> Option<Platform> {
        match value {
            0u16 => Some(Platform::Unicode),
            1u16 => Some(Platform::Macintosh),
            3u16 => Some(Platform::Microsoft),
            _ => None,
        }
    }

    pub fn try_from_u16(value: u16) -> (r: Option<Platform>)
        ensures
            r == Platform::spec_from_u16(value),
    {
        match value {
            0u16 => Some(Platform::Unicode),
            1u16 => Some(Platform::Macintosh),
            3u16 => Some(Platform::Microsoft),
            _ => None,
        }
    }
}

/// The head table: global font facts.
#[derive(Debug)]
pub struct HeadTable {
    pub font_revision: Fixed,
    pub checksum_adjustment: u32,
    pub magic_number: u32,
    pub flags: u16,
    pub units_per_em: u16,
    pub created: LongDateTime,
    pub modified: LongDateTime,
    pub x_min: FWord,
    pub y_min: FWord,
    pub x_max: FWord,
    pub y_max: FWord,
    pub mac_style: u16,
    pub lowest_rec_ppem: u16,
    pub font_direction_hint: i16,
    pub index_to_loc_format: IndexToLocFormat,
    pub glyph_data_format: i16,
}

/// Whether glyph offsets are stored as half words or whole words.
#[derive(Debug, Clone, Copy, PartialEq, Eq, Structural)]
pub enum IndexToLocFormat {
    Short,
    Long,
}

impl IndexToLocFormat {
    /// The format a header flag names: it must be the flag 0 or 1.
    pub open spec fn spec_from_i16(value: i16) -> Option<IndexToLocFormat> {
        if value == 0 {
            Some(IndexToLocFormat::Short)
        } else if value == 1 {
            Some(IndexToLocFormat::Long)
        } else {
            None
        }
    }

    pub fn try_from_i16(value: i16) -> (r: Option<IndexToLocFormat>)
        ensures
            r == IndexToLocFormat::spec_from_i16(value),
    {
        if value == 0 {
            Some(IndexToLocFormat::Short)
        } else if value == 1 {
            Some(IndexToLocFormat::Long)
        } else {
            None
        }
    }

    /// How many bytes one stored offset occupies under this format.
    pub fn size(&self) -> (n: usize)
        ensures
            n == (if self is Short {
                2int
            } else {
                1int
            }),
    {
        match self {
            IndexToLocFormat::Short => 2,
            IndexToLocFormat::Long => 1,
        }
    }
}

/// The horizontal header table.
#[derive(Debug)]
pub struct HHeaTable {
    pub ascent: FWord,
    pub descent: FWord,
    pub line_gap: FWord,
    pub advance_width_max: UnsignedFWord,
    pub min_left_side_bearing: FWord,
    pub min_right_side_bearing: FWord,
    pub x_max_extent: FWord,
    pub caret_slope_rise: i16,
    pub caret_slope_run: i16,
    pub caret_offset: FWord,
    pub reserved: i64,
    pub metric_data_format: i16,
    pub num_of_long_hor_metrics: u16,
}

/// The maximum-profile table.
#[derive(Debug)]
pub struct MaxPTable {
    pub num_glyphs: u16,
    pub max_points: u16,
    pub max_contours: u16,
    pub max_component_points: u16,
    pub max_component_contours: u16,
    pub max_zones: u16,
    pub max_twilight_points: u16,
    pub max_storage: u16,
    pub max_function_defs: u16,
    pub max_instruction_defs: u16,
    pub max_stack_elements: u16,
    pub max_size_of_instructions: u16,
    pub max_component_elements: u16,
    pub max_component_depth: u16,
}

/// One glyph's advance width and left side bearing.
#[derive(Debug, Clone, Copy, PartialEq, Eq, Structural)]
pub struct LongHorizontalMetric {
    pub advance_width: u16,
    pub left_side_bearing: i16,
}

/// The horizontal metrics table.
#[derive(Debug)]
pub struct HMtxTable {
    pub h_metrics: Vec<LongHorizontalMetric>,
    pub left_side_bearing: Vec<FWord>,
}

/// Every glyph of the font, indexed by glyph number.
#[derive(Debug)]
pub struct GlyphTable {
    pub glyphs: Vec<Glyph>,
}

/// One glyph: its bounding description and its outline data.
#[derive(Debug, Clone)]
pub struct Glyph {
    pub description: GlyphDescription,
    pub data: GlyphData,
}

impl Glyph {
    /// Whether the glyph is a simple outline rather than a compound of
    /// other glyphs.
    pub fn is_simple(&self) -> (r: bool)
        ensures
            r == (self.data is Simple),
    {
        matches!(self.data, GlyphData::Simple(_))
    }
}

/// A glyph's contour count and bounding box.
#[derive(Debug, Clone, Copy, PartialEq, Eq, Structural)]
pub struct GlyphDescription {
    pub number_of_contours: i16,
    pub x_min: FWord,
    pub y_min: FWord,
    pub x_max: FWord,
    pub y_max: FWord,
}

impl GlyphDescription {
    /// Width of the bounding box.
    pub fn width(&self) -> (w: usize)
        requires
            self.x_min <= self.x_max,
        ensures
            w == self.x_max - self.x_min,
    {
        (self.x_max as i32 - self.x_min as i32) as usize
    }

    /// Height of the bounding box.
    pub fn height(&self) -> (h: usize)
        requires
            self.y_min <= self.y_max,
        ensures
            h == self.y_max - self.y_min,
    {
        (self.y_max as i32 - self.y_min as i32) as usize
    }

    /// A non-negative contour count marks a simple glyph.
    pub open spec fn is_simple(self) -> bool {
        self.number_of_contours >= 0
    }
}

/// A glyph's outline: simple contours or components.
#[derive(Debug, Clone)]
pub enum GlyphData {
    Simple(SimpleGlyph),
    Compound(CompoundGlyph),
}

/// A simple glyph: contour end points, hinting instructions, per-point
/// flags, and absolute coordinates.
#[derive(Debug, Clone)]
pub struct SimpleGlyph {
    pub end_points_of_contours: Vec<u16>,
    pub instruction_length: u16,
    pub instructions: Vec<u8>,
    pub flags: Vec<SimpleGlyphFlag>,
    pub coordinates: Vec<(i16, i16)>,
}

/// The per-point flag byte of a simple glyph.
#[derive(Debug, Clone, Copy, PartialEq, Eq, Structural)]
pub struct SimpleGlyphFlag(pub u8);

impl SimpleGlyphFlag {
    pub fn on_curve(&self) -> (r: bool)
        ensures
            r == (self.0 & 0b1 == 1),
    {
        self.0 & 0b1 == 1
    }

    pub fn x_short_vector(&self) -> (r: bool)
        ensures
            r == ((self.0 & 0b10) >> 1 == 1),
    {
        (self.0 & 0b10) >> 1 == 1
    }

    pub fn y_short_vector(&self) -> (r: bool)
        ensures
            r == ((self.0 & 0b100) >> 2 == 1),
    {
        (self.0 & 0b100) >> 2 == 1
    }

    pub fn should_repeat(&self) -> (r: bool)
        ensures
            r == ((self.0 & 0b1000) >> 3 == 1),
    {
        (self.0 & 0b1000) >> 3 == 1
    }

    pub fn x_is_same_or_sign(&self) -> (r: bool)
        ensures
            r == ((self.0 & 0b10000) >> 4 == 1),
    {
        (self.0 & 0b10000) >> 4 == 1
    }

    pub fn y_is_same_or_sign(&self) -> (r: bool)
        ensures
            r == ((self.0 & 0b100000) >> 5 == 1),
    {
        (self.0 & 0b100000) >> 5 == 1
    }
}

/// A compound glyph: a list of transformed component glyphs.
#[derive(Debug, Clone)]
pub struct CompoundGlyph {
    pub components: Vec<ComponentGlyph>,
}

/// One component of a compound glyph.
#[derive(Debug, Clone)]
pub struct ComponentGlyph {
    pub flag: ComponentGlyphFlag,
    pub glyph_index: u16,
    pub arg_1: ComponentGlyphArgument,
    pub arg_2: ComponentGlyphArgument,
    pub transformation: ComponentGlyphTransformation,
}

/// A component argument: a point index or a coordinate offset.
#[derive(Debug, Clone, Copy, PartialEq, Eq, Structural)]
pub enum ComponentGlyphArgument {
    Point(u16),
    Coord(i16),
}

/// The component flag word.
#[derive(Debug, Clone, Copy, PartialEq, Eq, Structural)]
pub struct ComponentGlyphFlag(pub u16);

impl ComponentGlyphFlag {
    pub fn arg1_2_are_words(&self) -> (r: bool)
        ensures
            r == (self.0 & 0b1 == 1),
    {
        self.0 & 0b1 == 1
    }

    pub fn args_are_xy_values(&self) -> (r: bool)
        ensures
            r == (self.0 & ((0b10u16) << 1) == 1),
    {
        self.0 & 0b10 << 1 == 1
    }

    pub fn round_xy_to_grid(&self) -> (r: bool)
        ensures
            r == (self.0 & ((0b100u16) << 2) == 1),
    {
        self.0 & 0b100 << 2 == 1
    }

    pub fn we_have_a_scale(&self) -> (r: bool)
        ensures
            r == (self.0 & ((0b1000u16) << 3) == 1),
    {
        self.0 & 0b1000 << 3 == 1
    }

    pub fn more_components(&self) -> (r: bool)
        ensures
            r == (self.0 & ((0b100000u16) << 5) == 1),
    {
        self.0 & 0b100000 << 5 == 1
    }

    pub fn we_have_an_xy_scale(&self) -> (r: bool)
        ensures
            r == (self.0 & ((0b1000000u16) << 6) == 1),
    {
        self.0 & 0b1000000 << 6 == 1
    }

    pub fn we_have_two_by_two(&self) -> (r: bool)
        ensures
            r == (self.0 & ((0b10000000u16) << 7) == 1),
    {
        self.0 & 0b10000000 << 7 == 1
    }

    pub fn we_have_instructions(&self) -> (r: bool)
        ensures
            r == (self.0 & ((0b100000000u16) << 8) == 1),
    {
        self.0 & 0b100000000 << 8 == 1
    }

    pub fn use_my_metrics(&self) -> (r: bool)
        ensures
            r == (self.0 & ((0b1000000000u16) << 9) == 1),
    {
        self.0 & 0b1000000000 << 9 == 1
    }

    pub fn overlap_compound(&self) -> (r: bool)
        ensures
            r == (self.0 & ((0b10000000000u16) << 10) == 1),
    {
        self.0 & 0b10000000000 << 10 == 1
    }
}

/// A component's scale: uniform, per-axis, or a full two-by-two matrix.
#[derive(Debug, Clone, Copy, PartialEq, Eq, Structural)]
pub enum ComponentGlyphTransformation {
    Uniform(F2Dot14),
    NonUniform { x_scale: F2Dot14, y_scale: F2Dot14 },
    Affine { x_scale: F2Dot14, scale_01: F2Dot14, scale_10: F2Dot14, y_scale: F2Dot14 },
}

} // verus!
