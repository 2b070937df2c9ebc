use pngcodec::font::grammar::CMapFormat4;
use pngcodec::font::grammar::FontDirectory;
use pngcodec::font::grammar::OffsetSubTable;
use pngcodec::font::grammar::ScalarType;
use pngcodec::font::grammar::TableRecord;
use pngcodec::font::grammar::TableTag;
use pngcodec::font::parser::TrueTypeFontParser;
use pngcodec::grammar::DecodeError;

fn sample_cmap4() -> CMapFormat4 {
    CMapFormat4 {
        language: 0,
        seg_count_x2: 4,
        search_range: 0,
        entry_selector: 0,
        range_shift: 0,
        end_codes: vec![0x40, 0xffff],
        start_codes: vec![0x20, 0xf000],
        id_deltas: vec![10, 1],
        id_range_offset: vec![0, 0],
        glyph_index_array: vec![],
    }
}

#[test]
fn glyph_lookup_uses_the_segment_delta() {
    let c4 = sample_cmap4();
    // '0' is 0x30: first segment, delta 10.
    assert_eq!(c4.find_glyph_index('0'), 0x3a);
    // 'A' is 0x41: second segment, below its start code: the missing glyph.
    assert_eq!(c4.find_glyph_index('A'), 0);
}

#[test]
fn table_lookup_finds_the_first_record() {
    let dir = FontDirectory {
        offset_sub_table: OffsetSubTable {
            scalar_type: ScalarType::TrueType,
            num_tables: 2,
            search_range: 0,
            entry_selector: 0,
            range_shift: 0,
        },
        table_directory: vec![
            (TableTag::Head, TableRecord { checksum: 0, offset: 12, length: 54 }),
            (TableTag::Foreign(*b"zzzz"), TableRecord { checksum: 0, offset: 66, length: 1 }),
        ],
    };
    assert_eq!(dir.get_table_record(&TableTag::Head).unwrap().offset, 12);
    assert_eq!(dir.get_table_record(&TableTag::Foreign(*b"zzzz")).unwrap().offset, 66);
    assert_eq!(dir.get_table_record(&TableTag::CMap).unwrap_err(), DecodeError::Structure);
    assert!(TableTag::Head.is_required());
    assert!(!TableTag::Kern.is_required());
}

#[test]
fn a_truncated_font_file_is_rejected() {
    let data = [0x00u8, 0x01, 0x00, 0x00, 0x00, 0x02];
    let mut parser = TrueTypeFontParser::new(&data);
    assert!(parser.parse().is_err());
}
