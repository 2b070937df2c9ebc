//! The font-outline parser: reads the table directory and the required
//! tables out of one in-memory font file.

use crate::font::grammar::CMapFormat0;
use crate::font::grammar::CMapFormat12;
use crate::font::grammar::CMapFormat4;
use crate::font::grammar::CMapIndividualGroup;
use crate::font::grammar::CMapSubtable;
use crate::font::grammar::CMapTable;
use crate::font::grammar::ComponentGlyph;
use crate::font::grammar::ComponentGlyphArgument;
use crate::font::grammar::ComponentGlyphFlag;
use crate::font::grammar::ComponentGlyphTransformation;
use crate::font::grammar::CompoundGlyph;
use crate::font::grammar::FontDirectory;
use crate::font::grammar::Glyph;
use crate::font::grammar::GlyphData;
use crate::font::grammar::GlyphTable;
use crate::font::grammar::GlyphDescription;
use crate::font::grammar::HHeaTable;
use crate::font::grammar::HMtxTable;
use crate::font::grammar::HeadTable;
use crate::font::grammar::IndexToLocFormat;
use crate::font::grammar::LongHorizontalMetric;
use crate::font::grammar::MaxPTable;
use crate::font::grammar::OffsetSubTable;
use crate::font::grammar::Platform;
use crate::font::grammar::PlatformDouble;
use crate::font::grammar::ScalarType;
use crate::font::grammar::SimpleGlyph;
use crate::font::grammar::SimpleGlyphFlag;
use crate::font::grammar::TableRecord;
use crate::font::grammar::TableTag;
use crate::font::grammar::TrueTypeFontFile;
use crate::grammar::DecodeError;
use vstd::prelude::*;

verus! {

/// Whether every format-4 character-map subtable of a table is well formed,
/// so that glyph lookups on it stay in bounds.
pub open spec fn cmap_fours_wf(t: CMapTable) -> bool {
    forall|i: int|
        0 <= i < t.subtables@.len() ==> match #[trigger] t.subtables@[i].0 {
            CMapSubtable::Four(c4) => c4.wf(),
            _ => true,
        }
}

/// The font-outline parser over one in-memory byte buffer.
#[derive(Debug)]
pub struct TrueTypeFontParser<'a> {
    cursor: usize,
    data: &'a [u8],
}

impl<'a> TrueTypeFontParser<'a> {
    /// The bytes this parser reads.
    pub closed spec fn spec_data(&self) -> Seq<u8> {
        self.data@
    }

    /// How far into the bytes the parser has read.
    pub closed spec fn spec_cursor(&self) -> int {
        self.cursor as int
    }

    pub fn new(data: &'a [u8]) -> (r: TrueTypeFontParser<'a>)
        ensures
            r.spec_data() == data@,
            r.spec_cursor() == 0,
    {
        TrueTypeFontParser { cursor: 0, data }
    }

    /// Parse the whole file: the directory, then each required table at the
    /// offset its directory record names. On success the character map's
    /// format-4 subtables are well formed, the offset table holds one more
    /// entry than there are glyphs, and every glyph is present.
    pub fn parse(&mut self) -> (r: Result<TrueTypeFontFile, DecodeError>)
        ensures
            final(self).spec_data() == old(self).spec_data(),
            match r {
                Ok(f) => {
                    &&& cmap_fours_wf(f.cmap_table)
                    &&& f.loca_table@.len() == f.maxp_table.num_glyphs + 1
                    &&& f.glyph_table.glyphs@.len() == f.maxp_table.num_glyphs
                },
                Err(e) => true,
            },
    {
        let font_directory = match self.parse_font_directory() {
            Ok(d) => d,
            Err(e) => {
                return Err(e);
            },
        };

        let head_table = {
            let head_table_record = match font_directory.get_table_record(&TableTag::Head) {
                Ok(rec) => *rec,
                Err(e) => {
                    return Err(e);
                },
            };
            match self.jump_to_table_record(&head_table_record) {
                Ok(()) => (),
                Err(e) => {
                    return Err(e);
                },
            }
            match self.parse_head_table() {
                Ok(t) => t,
                Err(e) => {
                    return Err(e);
                },
            }
        };

        let hhea_table = {
            let hhea_table_record = match font_directory.get_table_record(&TableTag::HHea) {
                Ok(rec) => *rec,
                Err(e) => {
                    return Err(e);
                },
            };
            match self.jump_to_table_record(&hhea_table_record) {
                Ok(()) => (),
                Err(e) => {
                    return Err(e);
                },
            }
            match self.parse_hhea_table() {
                Ok(t) => t,
                Err(e) => {
                    return Err(e);
                },
            }
        };

        let maxp_table = {
            let maxp_table_record = match font_directory.get_table_record(&TableTag::MaxP) {
                Ok(rec) => *rec,
                Err(e) => {
                    return Err(e);
                },
            };
            match self.jump_to_table_record(&maxp_table_record) {
                Ok(()) => (),
                Err(e) => {
                    return Err(e);
                },
            }
            match self.parse_maxp_table() {
                Ok(t) => t,
                Err(e) => {
                    return Err(e);
                },
            }
        };

        let loca_table = {
            let loca_table_record = match font_directory.get_table_record(&TableTag::Loca) {
                Ok(rec) => *rec,
                Err(e) => {
                    return Err(e);
                },
            };
            match self.jump_to_table_record(&loca_table_record) {
                Ok(()) => (),
                Err(e) => {
                    return Err(e);
                },
            }
            match self.parse_loca_table(&head_table.index_to_loc_format, maxp_table.num_glyphs) {
                Ok(t) => t,
                Err(e) => {
                    return Err(e);
                },
            }
        };

        let hmtx_table = {
            let hmtx_table_record = match font_directory.get_table_record(&TableTag::HMtx) {
                Ok(rec) => *rec,
                Err(e) => {
                    return Err(e);
                },
            };
            match self.jump_to_table_record(&hmtx_table_record) {
                Ok(()) => (),
                Err(e) => {
                    return Err(e);
                },
            }
            match self.parse_hmtx_table(hhea_table.num_of_long_hor_metrics, maxp_table.num_glyphs) {
                Ok(t) => t,
                Err(e) => {
                    return Err(e);
                },
            }
        };

        let cmap_table = {
            let cmap_table_record = match font_directory.get_table_record(&TableTag::CMap) {
                Ok(rec) => *rec,
                Err(e) => {
                    return Err(e);
                },
            };
            match self.jump_to_table_record(&cmap_table_record) {
                Ok(()) => (),
                Err(e) => {
                    return Err(e);
                },
            }
            match self.parse_cmap_table() {
                Ok(t) => t,
                Err(e) => {
                    return Err(e);
                },
            }
        };

        let glyph_table = {
            let glyph_table_record = match font_directory.get_table_record(&TableTag::Glyf) {
                Ok(rec) => *rec,
                Err(e) => {
                    return Err(e);
                },
            };
            match self.jump_to_table_record(&glyph_table_record) {
                Ok(()) => (),
                Err(e) => {
                    return Err(e);
                },
            }
            match self.parse_glyph_table(loca_table.as_slice()) {
                Ok(t) => t,
                Err(e) => {
                    return Err(e);
                },
            }
        };

        Ok(
            TrueTypeFontFile {
                font_directory,
                head_table,
                hhea_table,
                maxp_table,
                loca_table,
                hmtx_table,
                cmap_table,
                glyph_table,
            },
        )
    }

    /// Parse the directory header and the tag-to-record directory entries.
    fn parse_font_directory(&mut self) -> (r: Result<FontDirectory, DecodeError>)
        ensures
            final(self).spec_data() == old(self).spec_data(),
            r matches Ok(d) ==> d.table_directory@.len() == d.offset_sub_table.num_tables,
    {
        let scalar_bytes = match self.read_slice(4) {
            Ok(s) => s,
            Err(e) => {
                return Err(e);
            },
        };
        let scalar_type = match ScalarType::try_from_bytes(scalar_bytes) {
            Some(t) => t,
            None => {
                return Err(DecodeError::Structure);
            },
        };
        let num_tables = match self.read_u16() {
            Ok(v) => v,
            Err(e) => {
                return Err(e);
            },
        };
        let search_range = match self.read_u16() {
            Ok(v) => v,
            Err(e) => {
                return Err(e);
            },
        };
        let entry_selector = match self.read_u16() {
            Ok(v) => v,
            Err(e) => {
                return Err(e);
            },
        };
        let range_shift = match self.read_u16() {
            Ok(v) => v,
            Err(e) => {
                return Err(e);
            },
        };
        let offset_sub_table = OffsetSubTable {
            scalar_type,
            num_tables,
            search_range,
            entry_selector,
            range_shift,
        };

        let mut table_directory: Vec<(TableTag, TableRecord)> = Vec::new();
        let mut i: u16 = 0;
        while i < num_tables
            invariant
                0 <= i <= num_tables,
                table_directory@.len() == i,
                self.data@ == old(self).spec_data(),
            decreases num_tables - i,
        {
            let tag_bytes = match self.read_slice(4) {
                Ok(s) => s,
                Err(e) => {
                    return Err(e);
                },
            };
            let table_tag = tag_from_bytes(tag_bytes);
            let checksum = match self.read_u32() {
                Ok(v) => v,
                Err(e) => {
                    return Err(e);
                },
            };
            let offset = match self.read_u32() {
                Ok(v) => v,
                Err(e) => {
                    return Err(e);
                },
            };
            let length = match self.read_u32() {
                Ok(v) => v,
                Err(e) => {
                    return Err(e);
                },
            };
            table_directory.push((table_tag, TableRecord { checksum, offset, length }));
            i = i + 1;
        }

        Ok(FontDirectory { offset_sub_table, table_directory })
    }

    /// Parse the head table, validating its version, magic number, and
    /// glyph data format.
    fn parse_head_table(&mut self) -> (r: Result<HeadTable, DecodeError>)
        ensures
            final(self).spec_data() == old(self).spec_data(),
            r matches Ok(t) ==> t.magic_number == 0x5F0F3CF5 && t.glyph_data_format == 0,
    {
        let version = match self.read_fixed() {
            Ok(v) => v,
            Err(e) => {
                return Err(e);
            },
        };
        if version != 0x0001_0000 {
            return Err(DecodeError::Structure);
        }
        let font_revision = match self.read_fixed() {
            Ok(v) => v,
            Err(e) => {
                return Err(e);
            },
        };
        let checksum_adjustment = match self.read_u32() {
            Ok(v) => v,
            Err(e) => {
                return Err(e);
            },
        };
        let magic_number = match self.read_u32() {
            Ok(v) => v,
            Err(e) => {
                return Err(e);
            },
        };
        if magic_number != 0x5F0F_3CF5 {
            return Err(DecodeError::Structure);
        }
        let flags = match self.read_u16() {
            Ok(v) => v,
            Err(e) => {
                return Err(e);
            },
        };
        let units_per_em = match self.read_u16() {
            Ok(v) => v,
            Err(e) => {
                return Err(e);
            },
        };
        let created = match self.read_i64() {
            Ok(v) => v,
            Err(e) => {
                return Err(e);
            },
        };
        let modified = match self.read_i64() {
            Ok(v) => v,
            Err(e) => {
                return Err(e);
            },
        };
        let x_min = match self.read_i16() {
            Ok(v) => v,
            Err(e) => {
                return Err(e);
            },
        };
        let y_min = match self.read_i16() {
            Ok(v) => v,
            Err(e) => {
                return Err(e);
            },
        };
        let x_max = match self.read_i16() {
            Ok(v) => v,
            Err(e) => {
                return Err(e);
            },
        };
        let y_max = match self.read_i16() {
            Ok(v) => v,
            Err(e) => {
                return Err(e);
            },
        };
        let mac_style = match self.read_u16() {
            Ok(v) => v,
            Err(e) => {
                return Err(e);
            },
        };
        let lowest_rec_ppem = match self.read_u16() {
            Ok(v) => v,
            Err(e) => {
                return Err(e);
            },
        };
        let font_direction_hint = match self.read_i16() {
            Ok(v) => v,
            Err(e) => {
                return Err(e);
            },
        };
        let loc_flag = match self.read_i16() {
            Ok(v) => v,
            Err(e) => {
                return Err(e);
            },
        };
        let index_to_loc_format = match IndexToLocFormat::try_from_i16(loc_flag) {
            Some(f) => f,
            None => {
                return Err(DecodeError::Structure);
            },
        };
        let glyph_data_format = match self.read_i16() {
            Ok(v) => v,
            Err(e) => {
                return Err(e);
            },
        };
        if glyph_data_format != 0 {
            return Err(DecodeError::Structure);
        }

        Ok(
            HeadTable {
                font_revision,
                checksum_adjustment,
                magic_number,
                flags,
                units_per_em,
                created,
                modified,
                x_min,
                y_min,
                x_max,
                y_max,
                mac_style,
                lowest_rec_ppem,
                font_direction_hint,
                index_to_loc_format,
                glyph_data_format,
            },
        )
    }

    /// Parse the glyph-offset table: one offset per glyph plus the trailing
    /// end offset, each doubled when stored in the short format.
    fn parse_loca_table(
        &mut self,
        index_to_loca_format: &IndexToLocFormat,
        num_glyphs: u16,
    ) -> (r: Result<Vec<u32>, DecodeError>)
        ensures
            final(self).spec_data() == old(self).spec_data(),
            r matches Ok(v) ==> v@.len() == num_glyphs + 1,
    {
        let count = num_glyphs as usize + 1;
        let mut offsets: Vec<u32> = Vec::new();
        let mut i: usize = 0;
        while i < count
            invariant
                0 <= i <= count,
                offsets@.len() == i,
                self.data@ == old(self).spec_data(),
            decreases count - i,
        {
            let v = match index_to_loca_format {
                IndexToLocFormat::Short => {
                    match self.read_u16() {
                        Ok(v) => v as u32 * 2,
                        Err(e) => {
                            return Err(e);
                        },
                    }
                },
                IndexToLocFormat::Long => {
                    match self.read_u32() {
                        Ok(v) => v,
                        Err(e) => {
                            return Err(e);
                        },
                    }
                },
            };
            offsets.push(v);
            i = i + 1;
        }

        Ok(offsets)
    }

    /// Parse the horizontal header table, validating its version.
    fn parse_hhea_table(&mut self) -> (r: Result<HHeaTable, DecodeError>)
        ensures
            final(self).spec_data() == old(self).spec_data(),
    {
        let version = match self.read_fixed() {
            Ok(v) => v,
            Err(e) => {
                return Err(e);
            },
        };
        if version != 0x0001_0000 {
            return Err(DecodeError::Structure);
        }
        let ascent = match self.read_i16() {
            Ok(v) => v,
            Err(e) => {
                return Err(e);
            },
        };
        let descent = match self.read_i16() {
            Ok(v) => v,
            Err(e) => {
                return Err(e);
            },
        };
        let line_gap = match self.read_i16() {
            Ok(v) => v,
            Err(e) => {
                return Err(e);
            },
        };
        let advance_width_max = match self.read_u16() {
            Ok(v) => v,
            Err(e) => {
                return Err(e);
            },
        };
        let min_left_side_bearing = match self.read_i16() {
            Ok(v) => v,
            Err(e) => {
                return Err(e);
            },
        };
        let min_right_side_bearing = match self.read_i16() {
            Ok(v) => v,
            Err(e) => {
                return Err(e);
            },
        };
        let x_max_extent = match self.read_i16() {
            Ok(v) => v,
            Err(e) => {
                return Err(e);
            },
        };
        let caret_slope_rise = match self.read_i16() {
            Ok(v) => v,
            Err(e) => {
                return Err(e);
            },
        };
        let caret_slope_run = match self.read_i16() {
            Ok(v) => v,
            Err(e) => {
                return Err(e);
            },
        };
        let caret_offset = match self.read_i16() {
            Ok(v) => v,
            Err(e) => {
                return Err(e);
            },
        };
        let reserved = match self.read_i64() {
            Ok(v) => v,
            Err(e) => {
                return Err(e);
            },
        };
        let metric_data_format = match self.read_i16() {
            Ok(v) => v,
            Err(e) => {
                return Err(e);
            },
        };
        let num_of_long_hor_metrics = match self.read_u16() {
            Ok(v) => v,
            Err(e) => {
                return Err(e);
            },
        };

        Ok(
            HHeaTable {
                ascent,
                descent,
                line_gap,
                advance_width_max,
                min_left_side_bearing,
                min_right_side_bearing,
                x_max_extent,
                caret_slope_rise,
                caret_slope_run,
                caret_offset,
                reserved,
                metric_data_format,
                num_of_long_hor_metrics,
            },
        )
    }

    /// Parse the maximum-profile table, validating its version.
    fn parse_maxp_table(&mut self) -> (r: Result<MaxPTable, DecodeError>)
        ensures
            final(self).spec_data() == old(self).spec_data(),
    {
        // Fonts with PostScript outlines use a different table layout.
        let version = match self.read_fixed() {
            Ok(v) => v,
            Err(e) => {
                return Err(e);
            },
        };
        if version != 0x0001_0000 {
            return Err(DecodeError::Structure);
        }
        let num_glyphs = match self.read_u16() {
            Ok(v) => v,
            Err(e) => {
                return Err(e);
            },
        };
        let max_points = match self.read_u16() {
            Ok(v) => v,
            Err(e) => {
                return Err(e);
            },
        };
        let max_contours = match self.read_u16() {
            Ok(v) => v,
            Err(e) => {
                return Err(e);
            },
        };
        let max_component_points = match self.read_u16() {
            Ok(v) => v,
            Err(e) => {
                return Err(e);
            },
        };
        let max_component_contours = match self.read_u16() {
            Ok(v) => v,
            Err(e) => {
                return Err(e);
            },
        };
        let max_zones = match self.read_u16() {
            Ok(v) => v,
            Err(e) => {
                return Err(e);
            },
        };
        let max_twilight_points = match self.read_u16() {
            Ok(v) => v,
            Err(e) => {
                return Err(e);
            },
        };
        let max_storage = match self.read_u16() {
            Ok(v) => v,
            Err(e) => {
                return Err(e);
            },
        };
        let max_function_defs = match self.read_u16() {
            Ok(v) => v,
            Err(e) => {
                return Err(e);
            },
        };
        let max_instruction_defs = match self.read_u16() {
            Ok(v) => v,
            Err(e) => {
                return Err(e);
            },
        };
        let max_stack_elements = match self.read_u16() {
            Ok(v) => v,
            Err(e) => {
                return Err(e);
            },
        };
        let max_size_of_instructions = match self.read_u16() {
            Ok(v) => v,
            Err(e) => {
                return Err(e);
            },
        };
        let max_component_elements = match self.read_u16() {
            Ok(v) => v,
            Err(e) => {
                return Err(e);
            },
        };
        let max_component_depth = match self.read_u16() {
            Ok(v) => v,
            Err(e) => {
                return Err(e);
            },
        };

        Ok(
            MaxPTable {
                num_glyphs,
                max_points,
                max_contours,
                max_component_points,
                max_component_contours,
                max_zones,
                max_twilight_points,
                max_storage,
                max_function_defs,
                max_instruction_defs,
                max_stack_elements,
                max_size_of_instructions,
                max_component_elements,
                max_component_depth,
            },
        )
    }

    /// Parse the horizontal metrics: one long metric per metric count, then
    /// a bare left side bearing for each remaining glyph.
    fn parse_hmtx_table(&mut self, num_of_long_hor_metrics: u16, num_glyphs: u16) -> (r: Result<
        HMtxTable,
        DecodeError,
    >)
        ensures
            final(self).spec_data() == old(self).spec_data(),
            r matches Ok(t) ==> t.h_metrics@.len() == num_of_long_hor_metrics,
    {
        if num_of_long_hor_metrics > num_glyphs {
            return Err(DecodeError::Structure);
        }

        let count = num_of_long_hor_metrics as usize;
        let mut h_metrics: Vec<LongHorizontalMetric> = Vec::new();
        let mut i: usize = 0;
        while i < count
            invariant
                0 <= i <= count,
                h_metrics@.len() == i,
                self.data@ == old(self).spec_data(),
            decreases count - i,
        {
            let advance_width = match self.read_u16() {
                Ok(v) => v,
                Err(e) => {
                    return Err(e);
                },
            };
            let left_side_bearing = match self.read_i16() {
                Ok(v) => v,
                Err(e) => {
                    return Err(e);
                },
            };
            h_metrics.push(LongHorizontalMetric { advance_width, left_side_bearing });
            i = i + 1;
        }

        let num_left_side_bearing = (num_glyphs - num_of_long_hor_metrics) as usize;
        let mut left_side_bearing: Vec<i16> = Vec::new();
        let mut i: usize = 0;
        while i < num_left_side_bearing
            invariant
                0 <= i <= num_left_side_bearing,
                self.data@ == old(self).spec_data(),
            decreases num_left_side_bearing - i,
        {
            let v = match self.read_i16() {
                Ok(v) => v,
                Err(e) => {
                    return Err(e);
                },
            };
            left_side_bearing.push(v);
            i = i + 1;
        }

        Ok(HMtxTable { h_metrics, left_side_bearing })
    }

    /// Parse the character map: the subtable pointers are gathered first,
    /// duplicates of one offset merged, and each distinct offset parsed
    /// once.
    fn parse_cmap_table(&mut self) -> (r: Result<CMapTable, DecodeError>)
        ensures
            final(self).spec_data() == old(self).spec_data(),
            r matches Ok(t) ==> cmap_fours_wf(t),
    {
        let cmap_offset = self.cursor;
        let version = match self.read_u16() {
            Ok(v) => v,
            Err(e) => {
                return Err(e);
            },
        };
        if version != 0 {
            return Err(DecodeError::Structure);
        }

        let number_of_subtables = match self.read_u16() {
            Ok(v) => v,
            Err(e) => {
                return Err(e);
            },
        };

        // Gather the platform records of each distinct subtable offset, in
        // first-appearance order.
        let mut unique_offsets: Vec<(u32, Vec<PlatformDouble>)> = Vec::new();
        let mut i: u16 = 0;
        while i < number_of_subtables
            invariant
                self.data@ == old(self).spec_data(),
            decreases number_of_subtables - i,
        {
            let platform_word = match self.read_u16() {
                Ok(v) => v,
                Err(e) => {
                    return Err(e);
                },
            };
            let platform = match Platform::try_from_u16(platform_word) {
                Some(p) => p,
                None => {
                    return Err(DecodeError::Structure);
                },
            };
            let platform_specific_id = match self.read_u16() {
                Ok(v) => v,
                Err(e) => {
                    return Err(e);
                },
            };
            let platform_double = PlatformDouble { platform, platform_specific_id };
            let offset = match self.read_u32() {
                Ok(v) => v,
                Err(e) => {
                    return Err(e);
                },
            };

            let n = unique_offsets.len();
            let mut j: usize = 0;
            let mut found = false;
            while j < n
                invariant
                    0 <= j <= n,
                    n == unique_offsets@.len(),
                decreases n - j,
            {
                if unique_offsets[j].0 == offset {
                    found = true;
                    break ;
                }
                j = j + 1;
            }
            if found && j < unique_offsets.len() {
                let mut doubles = unique_offsets.remove(j);
                doubles.1.push(platform_double);
                unique_offsets.insert(j, doubles);
            } else {
                let mut doubles: Vec<PlatformDouble> = Vec::new();
                doubles.push(platform_double);
                unique_offsets.push((offset, doubles));
            }
            i = i + 1;
        }

        // Parse each distinct offset once.
        let mut subtables: Vec<(CMapSubtable, Vec<PlatformDouble>)> = Vec::new();
        let count = unique_offsets.len();
        let mut k: usize = 0;
        while k < count
            invariant
                0 <= k <= count,
                count == unique_offsets@.len(),
                self.data@ == old(self).spec_data(),
                cmap_fours_wf(CMapTable { subtables }),
            decreases count - k,
        {
            let offset = unique_offsets[k].0;
            if (offset as u128) + (cmap_offset as u128) > usize::MAX as u128 {
                return Err(DecodeError::Truncation);
            }
            match self.jump(cmap_offset + offset as usize, 0) {
                Ok(()) => (),
                Err(e) => {
                    return Err(e);
                },
            }
            let parsed = match self.parse_cmap_subtable() {
                Ok(p) => p,
                Err(e) => {
                    return Err(e);
                },
            };
            match parsed {
                Some(subtable) => {
                    let ghost old_subtables = subtables@;
                    let doubles = vstd::slice::slice_to_vec(unique_offsets[k].1.as_slice());
                    subtables.push((subtable, doubles));
                    proof {
                        assert forall|t: int|
                            0 <= t < subtables@.len() implies match #[trigger] subtables@[t].0 {
                            CMapSubtable::Four(c4) => c4.wf(),
                            _ => true,
                        } by {
                            if t < old_subtables.len() {
                                assert(subtables@[t] == old_subtables[t]);
                            }
                        }
                    }
                },
                None => {},
            }
            k = k + 1;
        }

        Ok(CMapTable { subtables })
    }

    /// Parse one character-map subtable; an obsolete or anticipated format
    /// is recognized, skipped, and reported as absent.
    fn parse_cmap_subtable(&mut self) -> (r: Result<Option<CMapSubtable>, DecodeError>)
        ensures
            final(self).spec_data() == old(self).spec_data(),
            r matches Ok(s) ==> match s {
                Some(sub) => sub matches CMapSubtable::Four(c4) ==> c4.wf(),
                None => true,
            },
    {
        let (format, _length) = match self.parse_cmap_subtable_format_and_length() {
            Ok(p) => p,
            Err(e) => {
                return Err(e);
            },
        };

        let subtable = if format == 0 {
            match self.parse_cmap_subtable_format_0() {
                Ok(t) => CMapSubtable::Zero(t),
                Err(e) => {
                    return Err(e);
                },
            }
        } else if format == 4 {
            match self.parse_cmap_subtable_format_4() {
                Ok(t) => CMapSubtable::Four(t),
                Err(e) => {
                    return Err(e);
                },
            }
        } else if format == 12 {
            match self.parse_cmap_subtable_format_12() {
                Ok(t) => CMapSubtable::Twelve(t),
                Err(e) => {
                    return Err(e);
                },
            }
        } else if format == 2 || format == 6 || format == 8 || format == 10 || format == 13
            || format == 14 {
            return Ok(None);
        } else {
            return Err(DecodeError::Structure);
        };

        Ok(Some(subtable))
    }

    /// Read a subtable's format word and its length field, whose width the
    /// format determines.
    fn parse_cmap_subtable_format_and_length(&mut self) -> (r: Result<(u16, usize), DecodeError>)
        ensures
            final(self).spec_data() == old(self).spec_data(),
    {
        let format = match self.read_u16() {
            Ok(v) => v,
            Err(e) => {
                return Err(e);
            },
        };
        let length: usize = if format == 0 || format == 2 || format == 4 || format == 6 {
            match self.read_u16() {
                Ok(v) => v as usize,
                Err(e) => {
                    return Err(e);
                },
            }
        } else if format == 8 || format == 10 || format == 12 || format == 13 {
            let reserved = match self.read_u16() {
                Ok(v) => v,
                Err(e) => {
                    return Err(e);
                },
            };
            if reserved != 0 {
                return Err(DecodeError::Structure);
            }
            match self.read_u32() {
                Ok(v) => v as usize,
                Err(e) => {
                    return Err(e);
                },
            }
        } else if format == 14 {
            match self.read_u32() {
                Ok(v) => v as usize,
                Err(e) => {
                    return Err(e);
                },
            }
        } else {
            return Err(DecodeError::Structure);
        };

        Ok((format, length))
    }

    /// Parse a format-0 subtable: a 256-entry byte table.
    fn parse_cmap_subtable_format_0(&mut self) -> (r: Result<CMapFormat0, DecodeError>)
        ensures
            final(self).spec_data() == old(self).spec_data(),
    {
        let language = match self.read_u16() {
            Ok(v) => v,
            Err(e) => {
                return Err(e);
            },
        };
        let table = match self.read_slice(256) {
            Ok(s) => s,
            Err(e) => {
                return Err(e);
            },
        };

        Ok(CMapFormat0 { language, glyph_index_array: vstd::slice::slice_to_vec(table) })
    }

    /// Parse a format-4 subtable: the four parallel segment arrays. A
    /// non-zero range offset selects glyph-array addressing, which this
    /// parser does not support.
    fn parse_cmap_subtable_format_4(&mut self) -> (r: Result<CMapFormat4, DecodeError>)
        ensures
            final(self).spec_data() == old(self).spec_data(),
            r matches Ok(t) ==> t.wf(),
    {
        let language = match self.read_u16() {
            Ok(v) => v,
            Err(e) => {
                return Err(e);
            },
        };
        let seg_count_x2 = match self.read_u16() {
            Ok(v) => v,
            Err(e) => {
                return Err(e);
            },
        };
        let search_range = match self.read_u16() {
            Ok(v) => v,
            Err(e) => {
                return Err(e);
            },
        };
        let entry_selector = match self.read_u16() {
            Ok(v) => v,
            Err(e) => {
                return Err(e);
            },
        };
        let range_shift = match self.read_u16() {
            Ok(v) => v,
            Err(e) => {
                return Err(e);
            },
        };

        let seg_count = (seg_count_x2 / 2) as usize;
        let end_codes = match self.read_u16_vec(seg_count) {
            Ok(v) => v,
            Err(e) => {
                return Err(e);
            },
        };
        if end_codes.len() == 0 || end_codes[end_codes.len() - 1] != 0xffff {
            return Err(DecodeError::Structure);
        }

        let _reserved = match self.read_u16() {
            Ok(v) => v,
            Err(e) => {
                return Err(e);
            },
        };
        let start_codes = match self.read_u16_vec(seg_count) {
            Ok(v) => v,
            Err(e) => {
                return Err(e);
            },
        };
        let id_deltas = match self.read_u16_vec(seg_count) {
            Ok(v) => v,
            Err(e) => {
                return Err(e);
            },
        };
        let id_range_offset = match self.read_u16_vec(seg_count) {
            Ok(v) => v,
            Err(e) => {
                return Err(e);
            },
        };

        let mut j: usize = 0;
        let n = id_range_offset.len();
        while j < n
            invariant
                0 <= j <= n,
                n == id_range_offset@.len(),
                self.data@ == old(self).spec_data(),
            decreases n - j,
        {
            if id_range_offset[j] != 0 {
                return Err(DecodeError::Structure);
            }
            j = j + 1;
        }

        let glyph_index_array: Vec<u16> = Vec::new();

        Ok(
            CMapFormat4 {
                language,
                seg_count_x2,
                search_range,
                entry_selector,
                range_shift,
                end_codes,
                start_codes,
                id_deltas,
                id_range_offset,
                glyph_index_array,
            },
        )
    }

    /// Parse a format-12 subtable: its group list.
    fn parse_cmap_subtable_format_12(&mut self) -> (r: Result<CMapFormat12, DecodeError>)
        ensures
            final(self).spec_data() == old(self).spec_data(),
    {
        let language = match self.read_u32() {
            Ok(v) => v,
            Err(e) => {
                return Err(e);
            },
        };
        let n_groups = match self.read_u32() {
            Ok(v) => v,
            Err(e) => {
                return Err(e);
            },
        };

        let count = n_groups as usize;
        let mut groups: Vec<CMapIndividualGroup> = Vec::new();
        let mut i: usize = 0;
        while i < count
            invariant
                self.data@ == old(self).spec_data(),
            decreases count - i,
        {
            let g = match self.parse_cmap_individual_group() {
                Ok(g) => g,
                Err(e) => {
                    return Err(e);
                },
            };
            groups.push(g);
            i = i + 1;
        }

        Ok(CMapFormat12 { language, groups })
    }

    /// Parse one contiguous character-to-glyph group.
    fn parse_cmap_individual_group(&mut self) -> (r: Result<CMapIndividualGroup, DecodeError>)
        ensures
            final(self).spec_data() == old(self).spec_data(),
    {
        let start_char_code = match self.read_u32() {
            Ok(v) => v,
            Err(e) => {
                return Err(e);
            },
        };
        let end_char_code = match self.read_u32() {
            Ok(v) => v,
            Err(e) => {
                return Err(e);
            },
        };
        let start_glyph_code = match self.read_u32() {
            Ok(v) => v,
            Err(e) => {
                return Err(e);
            },
        };
        Ok(CMapIndividualGroup { start_char_code, end_char_code, start_glyph_code })
    }

    /// Parse every glyph: each offset pair of the offset table locates one
    /// glyph; a zero-length or zero-contour entry repeats the first glyph.
    fn parse_glyph_table(&mut self, loca_table: &[u32]) -> (r: Result<GlyphTable, DecodeError>)
        requires
            loca_table@.len() >= 1,
        ensures
            final(self).spec_data() == old(self).spec_data(),
            r matches Ok(t) ==> t.glyphs@.len() == loca_table@.len() - 1,
    {
        let glyph_table_offset = self.cursor;

        let num_glyphs = loca_table.len() - 1;
        let mut glyphs: Vec<Glyph> = Vec::new();

        let mut i: usize = 0;
        while i < num_glyphs
            invariant
                0 <= i <= num_glyphs,
                num_glyphs == loca_table@.len() - 1,
                glyphs@.len() == i,
                self.data@ == old(self).spec_data(),
            decreases num_glyphs - i,
        {
            let glyph_relative_offset = loca_table[i];
            if loca_table[i + 1] < glyph_relative_offset {
                return Err(DecodeError::Structure);
            }
            let glyph_length = (loca_table[i + 1] - glyph_relative_offset) as usize;

            // An empty entry stands for a repeat of the first glyph.
            if glyph_length == 0 {
                if glyphs.len() == 0 {
                    return Err(DecodeError::Structure);
                }
                let first = glyphs[0].clone();
                glyphs.push(first);
                i = i + 1;
                continue ;
            }
            if (glyph_table_offset as u128) + (glyph_relative_offset as u128) > usize::MAX as u128 {
                return Err(DecodeError::Truncation);
            }
            match self.jump(glyph_table_offset + glyph_relative_offset as usize, glyph_length) {
                Ok(()) => (),
                Err(e) => {
                    return Err(e);
                },
            }

            let description = match self.parse_glyph_description() {
                Ok(d) => d,
                Err(e) => {
                    return Err(e);
                },
            };

            if description.number_of_contours == 0 {
                if glyphs.len() == 0 {
                    return Err(DecodeError::Structure);
                }
                let first = glyphs[0].clone();
                glyphs.push(first);
                i = i + 1;
                continue ;
            }

            let data = if description.number_of_contours >= 0 {
                let simple = match self.parse_simple_glyph(
                    description.number_of_contours as usize,
                ) {
                    Ok(s) => s,
                    Err(e) => {
                        return Err(e);
                    },
                };
                GlyphData::Simple(simple)
            } else {
                let compound = match self.parse_compound_glyph() {
                    Ok(c) => c,
                    Err(e) => {
                        return Err(e);
                    },
                };
                GlyphData::Compound(compound)
            };

            glyphs.push(Glyph { description, data });
            i = i + 1;
        }

        Ok(GlyphTable { glyphs })
    }

    /// Parse a glyph's contour count and bounding box.
    fn parse_glyph_description(&mut self) -> (r: Result<GlyphDescription, DecodeError>)
        ensures
            final(self).spec_data() == old(self).spec_data(),
    {
        let number_of_contours = match self.read_i16() {
            Ok(v) => v,
            Err(e) => {
                return Err(e);
            },
        };
        let x_min = match self.read_i16() {
            Ok(v) => v,
            Err(e) => {
                return Err(e);
            },
        };
        let y_min = match self.read_i16() {
            Ok(v) => v,
            Err(e) => {
                return Err(e);
            },
        };
        let x_max = match self.read_i16() {
            Ok(v) => v,
            Err(e) => {
                return Err(e);
            },
        };
        let y_max = match self.read_i16() {
            Ok(v) => v,
            Err(e) => {
                return Err(e);
            },
        };
        Ok(GlyphDescription { number_of_contours, x_min, y_min, x_max, y_max })
    }

    /// Parse a simple glyph: contour end points, instructions, the
    /// run-length-repeated flag bytes, then the delta-encoded coordinates.
    fn parse_simple_glyph(&mut self, number_of_contours: usize) -> (r: Result<
        SimpleGlyph,
        DecodeError,
    >)
        ensures
            final(self).spec_data() == old(self).spec_data(),
    {
        let end_points_of_contours = match self.read_u16_vec(number_of_contours) {
            Ok(v) => v,
            Err(e) => {
                return Err(e);
            },
        };
        if end_points_of_contours.len() == 0 {
            return Err(DecodeError::Structure);
        }

        let instruction_length = match self.read_u16() {
            Ok(v) => v,
            Err(e) => {
                return Err(e);
            },
        };
        let instruction_slice = match self.read_slice(instruction_length as usize) {
            Ok(s) => s,
            Err(e) => {
                return Err(e);
            },
        };
        let instructions = vstd::slice::slice_to_vec(instruction_slice);

        let number_of_points = end_points_of_contours[end_points_of_contours.len() - 1] as usize
            + 1;

        let mut flags: Vec<SimpleGlyphFlag> = Vec::new();
        // A repeat run may overshoot the point count by up to one byte's
        // worth of repeats.
        while flags.len() < number_of_points
            invariant
                self.data@ == old(self).spec_data(),
                flags@.len() <= number_of_points + 255,
            decreases number_of_points + 255 - flags.len(),
        {
            let ghost len0 = flags@.len();
            let flag_byte = match self.read_u8() {
                Ok(b) => b,
                Err(e) => {
                    return Err(e);
                },
            };
            let flag = SimpleGlyphFlag(flag_byte);
            flags.push(flag);

            if flag.should_repeat() {
                let repeat_count = match self.read_u8() {
                    Ok(b) => b,
                    Err(e) => {
                        return Err(e);
                    },
                };
                let mut t: u8 = 0;
                while t < repeat_count
                    invariant
                        self.data@ == old(self).spec_data(),
                        flags@.len() == len0 + 1 + t,
                    decreases repeat_count - t,
                {
                    flags.push(flag);
                    t = t + 1;
                }
            }
        }

        let mut x_coordinates: Vec<i16> = Vec::new();
        let mut prev_x: i16 = 0;
        let flag_count = flags.len();
        let mut fi: usize = 0;
        while fi < flag_count
            invariant
                0 <= fi <= flag_count,
                flag_count == flags@.len(),
                x_coordinates@.len() == fi,
                self.data@ == old(self).spec_data(),
            decreases flag_count - fi,
        {
            let flag = flags[fi];
            let delta = match self.parse_glyph_coordinate(
                flag.x_short_vector(),
                flag.x_is_same_or_sign(),
            ) {
                Ok(d) => d,
                Err(e) => {
                    return Err(e);
                },
            };
            match delta {
                Some(d) => {
                    prev_x = prev_x.wrapping_add(d);
                },
                None => {},
            }
            x_coordinates.push(prev_x);
            fi = fi + 1;
        }

        let mut y_coordinates: Vec<i16> = Vec::new();
        let mut prev_y: i16 = 0;
        let mut fi: usize = 0;
        while fi < flag_count
            invariant
                0 <= fi <= flag_count,
                flag_count == flags@.len(),
                y_coordinates@.len() == fi,
                self.data@ == old(self).spec_data(),
            decreases flag_count - fi,
        {
            let flag = flags[fi];
            let delta = match self.parse_glyph_coordinate(
                flag.y_short_vector(),
                flag.y_is_same_or_sign(),
            ) {
                Ok(d) => d,
                Err(e) => {
                    return Err(e);
                },
            };
            match delta {
                Some(d) => {
                    prev_y = prev_y.wrapping_add(d);
                },
                None => {},
            }
            y_coordinates.push(prev_y);
            fi = fi + 1;
        }

        let mut coordinates: Vec<(i16, i16)> = Vec::new();
        let mut ci: usize = 0;
        while ci < flag_count
            invariant
                0 <= ci <= flag_count,
                x_coordinates@.len() == flag_count,
                y_coordinates@.len() == flag_count,
            decreases flag_count - ci,
        {
            coordinates.push((x_coordinates[ci], y_coordinates[ci]));
            ci = ci + 1;
        }

        Ok(
            SimpleGlyph {
                end_points_of_contours,
                instruction_length,
                instructions,
                flags,
                coordinates,
            },
        )
    }

    /// Parse one coordinate delta, whose width and sign the two flag bits
    /// select; the same-or-sign bit with a long vector means "repeat the
    /// previous coordinate".
    fn parse_glyph_coordinate(&mut self, is_short_vector: bool, same_or_sign: bool) -> (r: Result<
        Option<i16>,
        DecodeError,
    >)
        ensures
            final(self).spec_data() == old(self).spec_data(),
    {
        if is_short_vector {
            let b = match self.read_u8() {
                Ok(b) => b,
                Err(e) => {
                    return Err(e);
                },
            };
            if same_or_sign {
                Ok(Some(b as i16))
            } else {
                Ok(Some(-(b as i16)))
            }
        } else {
            if same_or_sign {
                Ok(None)
            } else {
                let v = match self.read_i16() {
                    Ok(v) => v,
                    Err(e) => {
                        return Err(e);
                    },
                };
                Ok(Some(v))
            }
        }
    }

    /// Parse a compound glyph: components chained by the more-components
    /// flag bit.
    #[verifier::rlimit(100)]
    fn parse_compound_glyph(&mut self) -> (r: Result<CompoundGlyph, DecodeError>)
        ensures
            final(self).spec_data() == old(self).spec_data(),
    {
        let mut components: Vec<ComponentGlyph> = Vec::new();
        let first_word = match self.read_u16() {
            Ok(v) => v,
            Err(e) => {
                return Err(e);
            },
        };
        let mut flag = ComponentGlyphFlag(first_word);

        loop
            invariant
                self.data@ == old(self).spec_data(),
            decreases old(self).spec_data().len() - self.spec_cursor(),
        {
            let glyph_index = match self.read_u16() {
                Ok(v) => v,
                Err(e) => {
                    return Err(e);
                },
            };

            let words = flag.arg1_2_are_words();
            let xy = flag.args_are_xy_values();
            let (arg_1, arg_2) = if words && xy {
                let a = match self.read_i16() {
                    Ok(v) => v,
                    Err(e) => {
                        return Err(e);
                    },
                };
                let b = match self.read_i16() {
                    Ok(v) => v,
                    Err(e) => {
                        return Err(e);
                    },
                };
                (ComponentGlyphArgument::Coord(a), ComponentGlyphArgument::Coord(b))
            } else if !words && xy {
                let a = match self.read_i8() {
                    Ok(v) => v,
                    Err(e) => {
                        return Err(e);
                    },
                };
                let b = match self.read_i8() {
                    Ok(v) => v,
                    Err(e) => {
                        return Err(e);
                    },
                };
                (
                    ComponentGlyphArgument::Coord(a as i16),
                    ComponentGlyphArgument::Coord(b as i16),
                )
            } else if words && !xy {
                let a = match self.read_u16() {
                    Ok(v) => v,
                    Err(e) => {
                        return Err(e);
                    },
                };
                let b = match self.read_u16() {
                    Ok(v) => v,
                    Err(e) => {
                        return Err(e);
                    },
                };
                (ComponentGlyphArgument::Point(a), ComponentGlyphArgument::Point(b))
            } else {
                let a = match self.read_u8() {
                    Ok(v) => v,
                    Err(e) => {
                        return Err(e);
                    },
                };
                let b = match self.read_u8() {
                    Ok(v) => v,
                    Err(e) => {
                        return Err(e);
                    },
                };
                (
                    ComponentGlyphArgument::Point(a as u16),
                    ComponentGlyphArgument::Point(b as u16),
                )
            };

            let transformation = if flag.we_have_a_scale() {
                let scale = match self.read_i16() {
                    Ok(v) => v,
                    Err(e) => {
                        return Err(e);
                    },
                };
                ComponentGlyphTransformation::Uniform(scale)
            } else if flag.we_have_an_xy_scale() {
                let x_scale = match self.read_i16() {
                    Ok(v) => v,
                    Err(e) => {
                        return Err(e);
                    },
                };
                let y_scale = match self.read_i16() {
                    Ok(v) => v,
                    Err(e) => {
                        return Err(e);
                    },
                };
                ComponentGlyphTransformation::NonUniform { x_scale, y_scale }
            } else if flag.we_have_two_by_two() {
                let x_scale = match self.read_i16() {
                    Ok(v) => v,
                    Err(e) => {
                        return Err(e);
                    },
                };
                let scale_01 = match self.read_i16() {
                    Ok(v) => v,
                    Err(e) => {
                        return Err(e);
                    },
                };
                let scale_10 = match self.read_i16() {
                    Ok(v) => v,
                    Err(e) => {
                        return Err(e);
                    },
                };
                let y_scale = match self.read_i16() {
                    Ok(v) => v,
                    Err(e) => {
                        return Err(e);
                    },
                };
                ComponentGlyphTransformation::Affine { x_scale, scale_01, scale_10, y_scale }
            } else {
                // The implicit identity scale, in two-dot-fourteen fixed point.
                ComponentGlyphTransformation::Uniform(0x4000)
            };

            let component_glyph = ComponentGlyph {
                flag,
                glyph_index,
                arg_1,
                arg_2,
                transformation,
            };

            components.push(component_glyph);

            if !flag.more_components() {
                break ;
            }

            let next_word = match self.read_u16() {
                Ok(v) => v,
                Err(e) => {
                    return Err(e);
                },
            };
            flag = ComponentGlyphFlag(next_word);
        }

        Ok(CompoundGlyph { components })
    }

    /// Point the cursor at a table record's span, which must lie inside the
    /// buffer.
    fn jump_to_table_record(&mut self, table_record: &TableRecord) -> (r: Result<(), DecodeError>)
        ensures
            final(self).spec_data() == old(self).spec_data(),
    {
        if (table_record.offset as u64) + (table_record.length as u64) > usize::MAX as u64 {
            return Err(DecodeError::Truncation);
        }
        self.jump(table_record.offset as usize, table_record.length as usize)
    }

    /// Point the cursor at `offset`, requiring `length` more bytes to lie
    /// inside the buffer past it.
    fn jump(&mut self, offset: usize, length: usize) -> (r: Result<(), DecodeError>)
        ensures
            final(self).spec_data() == old(self).spec_data(),
            match r {
                Ok(()) => final(self).spec_cursor() == offset && offset + length < final(self).spec_data().len(),
                Err(e) => e == DecodeError::Truncation,
            },
    {
        if offset > self.data.len() || length >= self.data.len() - offset {
            self.cursor = offset;
            return Err(DecodeError::Truncation);
        }
        self.cursor = offset;

        Ok(())
    }

    /// Read `count` big-endian 16-bit values.
    fn read_u16_vec(&mut self, count: usize) -> (r: Result<Vec<u16>, DecodeError>)
        ensures
            final(self).spec_data() == old(self).spec_data(),
            r matches Ok(v) ==> v@.len() == count,
    {
        let mut out: Vec<u16> = Vec::new();
        let mut i: usize = 0;
        while i < count
            invariant
                0 <= i <= count,
                out@.len() == i,
                self.data@ == old(self).spec_data(),
            decreases count - i,
        {
            let v = match self.read_u16() {
                Ok(v) => v,
                Err(e) => {
                    return Err(e);
                },
            };
            out.push(v);
            i = i + 1;
        }
        Ok(out)
    }

    /// Read one byte.
    fn read_u8(&mut self) -> (r: Result<u8, DecodeError>)
        ensures
            final(self).spec_data() == old(self).spec_data(),
            match r {
                Ok(b) => old(self).spec_cursor() < old(self).spec_data().len() && b == old(self).spec_data()[old(self).spec_cursor()] && final(self).spec_cursor() == old(self).spec_cursor() + 1,
                Err(e) => e == DecodeError::Truncation && final(self).spec_cursor() == old(self).spec_cursor(),
            },
    {
        if self.cursor >= self.data.len() {
            return Err(DecodeError::Truncation);
        }
        let b = self.data[self.cursor];
        self.cursor = self.cursor + 1;
        Ok(b)
    }

    /// Read one signed byte.
    fn read_i8(&mut self) -> (r: Result<i8, DecodeError>)
        ensures
            final(self).spec_data() == old(self).spec_data(),
            match r {
                Ok(b) => old(self).spec_cursor() < old(self).spec_data().len() && b as int
                    == signed8(old(self).spec_data()[old(self).spec_cursor()]) && final(self).spec_cursor() == old(self).spec_cursor() + 1,
                Err(e) => e == DecodeError::Truncation && final(self).spec_cursor() == old(self).spec_cursor(),
            },
    {
        let b = match self.read_u8() {
            Ok(b) => b,
            Err(e) => {
                return Err(e);
            },
        };
        if b < 0x80 {
            Ok(b as i8)
        } else {
            Ok(((b - 0x80) as i8) - 0x40 - 0x40)
        }
    }

    /// Read one big-endian 16-bit value.
    fn read_u16(&mut self) -> (r: Result<u16, DecodeError>)
        ensures
            final(self).spec_data() == old(self).spec_data(),
            match r {
                Ok(v) => old(self).spec_cursor() + 2 <= old(self).spec_data().len() && v as int
                    == old(self).spec_data()[old(self).spec_cursor()] * 0x100 + old(self).spec_data()[old(self).spec_cursor() + 1] && final(self).spec_cursor() == old(self).spec_cursor() + 2,
                Err(e) => e == DecodeError::Truncation && final(self).spec_cursor() == old(self).spec_cursor(),
            },
    {
        if self.cursor >= self.data.len() || self.data.len() - self.cursor < 2 {
            return Err(DecodeError::Truncation);
        }
        let c = self.cursor;
        let v = (self.data[c] as u16) * 0x100 + (self.data[c + 1] as u16);
        self.cursor = c + 2;
        Ok(v)
    }

    /// Read one big-endian signed 16-bit value.
    fn read_i16(&mut self) -> (r: Result<i16, DecodeError>)
        ensures
            final(self).spec_data() == old(self).spec_data(),
            match r {
                Ok(v) => old(self).spec_cursor() + 2 <= old(self).spec_data().len() && final(self).spec_cursor() == old(self).spec_cursor() + 2,
                Err(e) => e == DecodeError::Truncation && final(self).spec_cursor() == old(self).spec_cursor(),
            },
    {
        let raw = match self.read_u16() {
            Ok(v) => v,
            Err(e) => {
                return Err(e);
            },
        };
        if raw < 0x8000 {
            Ok(raw as i16)
        } else {
            Ok((((raw - 0x8000) as i16) - 0x4000) - 0x4000)
        }
    }

    /// Read one big-endian 32-bit value.
    fn read_u32(&mut self) -> (r: Result<u32, DecodeError>)
        ensures
            final(self).spec_data() == old(self).spec_data(),
            match r {
                Ok(v) => old(self).spec_cursor() + 4 <= old(self).spec_data().len() && final(self).spec_cursor() == old(self).spec_cursor() + 4,
                Err(e) => e == DecodeError::Truncation,
            },
    {
        let hi = match self.read_u16() {
            Ok(v) => v,
            Err(e) => {
                return Err(e);
            },
        };
        let lo = match self.read_u16() {
            Ok(v) => v,
            Err(e) => {
                return Err(e);
            },
        };
        Ok((hi as u32) * 0x1_0000 + (lo as u32))
    }

    /// Read one big-endian fixed-point value (16.16).
    fn read_fixed(&mut self) -> (r: Result<i32, DecodeError>)
        ensures
            final(self).spec_data() == old(self).spec_data(),
            match r {
                Ok(v) => old(self).spec_cursor() + 4 <= old(self).spec_data().len() && final(self).spec_cursor() == old(self).spec_cursor() + 4,
                Err(e) => e == DecodeError::Truncation,
            },
    {
        let raw = match self.read_u32() {
            Ok(v) => v,
            Err(e) => {
                return Err(e);
            },
        };
        if raw < 0x8000_0000 {
            Ok(raw as i32)
        } else {
            Ok((((raw - 0x8000_0000) as i32) - 0x4000_0000) - 0x4000_0000)
        }
    }

    /// Read one big-endian signed 64-bit value.
    fn read_i64(&mut self) -> (r: Result<i64, DecodeError>)
        ensures
            final(self).spec_data() == old(self).spec_data(),
            match r {
                Ok(v) => old(self).spec_cursor() + 8 <= old(self).spec_data().len() && final(self).spec_cursor() == old(self).spec_cursor() + 8,
                Err(e) => e == DecodeError::Truncation,
            },
    {
        let hi = match self.read_u32() {
            Ok(v) => v,
            Err(e) => {
                return Err(e);
            },
        };
        let lo = match self.read_u32() {
            Ok(v) => v,
            Err(e) => {
                return Err(e);
            },
        };
        let raw: u64 = (hi as u64) * 0x1_0000_0000 + (lo as u64);
        if raw < 0x8000_0000_0000_0000 {
            Ok(raw as i64)
        } else {
            Ok((((raw - 0x8000_0000_0000_0000) as i64) - 0x4000_0000_0000_0000)
                - 0x4000_0000_0000_0000)
        }
    }

    /// Read `len` bytes.
    fn read_slice(&mut self, len: usize) -> (r: Result<&'a [u8], DecodeError>)
        ensures
            final(self).spec_data() == old(self).spec_data(),
            match r {
                Ok(out) => old(self).spec_cursor() + len <= old(self).spec_data().len() && out@
                    == old(self).spec_data().subrange(
                    old(self).spec_cursor(),
                    old(self).spec_cursor() + len,
                ) && final(self).spec_cursor() == old(self).spec_cursor() + len,
                Err(e) => e == DecodeError::Truncation && final(self).spec_cursor() == old(self).spec_cursor(),
            },
    {
        if self.cursor > self.data.len() || self.data.len() - self.cursor < len {
            return Err(DecodeError::Truncation);
        }
        let out = vstd::slice::slice_subrange(self.data, self.cursor, self.cursor + len);
        self.cursor = self.cursor + len;
        Ok(out)
    }
}

/// The signed value an unsigned byte stores in two's complement.
pub open spec fn signed8(b: u8) -> int {
    if b < 0x80 {
        b as int
    } else {
        b - 0x100
    }
}

/// The table tag four bytes name.
fn tag_from_bytes(bytes: &[u8]) -> (r: TableTag)
    requires
        bytes@.len() == 4,
{
    let b0 = bytes[0];
    let b1 = bytes[1];
    let b2 = bytes[2];
    let b3 = bytes[3];
    if b0 == 0x63 && b1 == 0x6d && b2 == 0x61 && b3 == 0x70 {
        TableTag::CMap
    } else if b0 == 0x67 && b1 == 0x6c && b2 == 0x79 && b3 == 0x66 {
        TableTag::Glyf
    } else if b0 == 0x68 && b1 == 0x65 && b2 == 0x61 && b3 == 0x64 {
        TableTag::Head
    } else if b0 == 0x68 && b1 == 0x68 && b2 == 0x65 && b3 == 0x61 {
        TableTag::HHea
    } else if b0 == 0x68 && b1 == 0x6d && b2 == 0x74 && b3 == 0x78 {
        TableTag::HMtx
    } else if b0 == 0x6c && b1 == 0x6f && b2 == 0x63 && b3 == 0x61 {
        TableTag::Loca
    } else if b0 == 0x6d && b1 == 0x61 && b2 == 0x78 && b3 == 0x70 {
        TableTag::MaxP
    } else if b0 == 0x6e && b1 == 0x61 && b2 == 0x6d && b3 == 0x65 {
        TableTag::Name
    } else if b0 == 0x70 && b1 == 0x6f && b2 == 0x73 && b3 == 0x74 {
        TableTag::Post
    } else if b0 == 0x63 && b1 == 0x76 && b2 == 0x74 && b3 == 0x20 {
        TableTag::CVT
    } else if b0 == 0x66 && b1 == 0x70 && b2 == 0x67 && b3 == 0x6d {
        TableTag::FPgm
    } else if b0 == 0x68 && b1 == 0x64 && b2 == 0x6d && b3 == 0x78 {
        TableTag::HDMx
    } else if b0 == 0x6b && b1 == 0x65 && b2 == 0x72 && b3 == 0x6e {
        TableTag::Kern
    } else if b0 == 0x4f && b1 == 0x53 && b2 == 0x2f && b3 == 0x32 {
        TableTag::OS2
    } else if b0 == 0x70 && b1 == 0x72 && b2 == 0x65 && b3 == 0x70 {
        TableTag::Prep
    } else {
        TableTag::Foreign([b0, b1, b2, b3])
    }
}

} // verus!
