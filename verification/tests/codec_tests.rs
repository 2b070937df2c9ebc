use pngcodec::decoder::PngDecoder;
use pngcodec::encoder::PngEncoder;
use pngcodec::grammar::Chunk;
use pngcodec::grammar::ColorType;
use pngcodec::grammar::DecodeError;
use pngcodec::grammar::Png;
use std::io::Write;

const SIGNATURE: [u8; 8] = [0x89, 0x50, 0x4e, 0x47, 0x0d, 0x0a, 0x1a, 0x0a];

fn chunk(tag: &[u8; 4], data: &[u8]) -> Vec<u8> {
    let mut out = Vec::new();
    out.extend_from_slice(&(data.len() as u32).to_be_bytes());
    out.extend_from_slice(tag);
    out.extend_from_slice(data);
    let mut crc_input = Vec::new();
    crc_input.extend_from_slice(tag);
    crc_input.extend_from_slice(data);
    out.extend_from_slice(&crc32fast::hash(&crc_input).to_be_bytes());
    out
}

fn ihdr(width: u32, height: u32, bit_depth: u8, color: u8, interlace: u8) -> Vec<u8> {
    let mut data = Vec::new();
    data.extend_from_slice(&width.to_be_bytes());
    data.extend_from_slice(&height.to_be_bytes());
    data.push(bit_depth);
    data.push(color);
    data.push(0);
    data.push(0);
    data.push(interlace);
    chunk(b"IHDR", &data)
}

fn zlib(raw: &[u8]) -> Vec<u8> {
    let mut encoder = flate2::write::ZlibEncoder::new(Vec::new(), flate2::Compression::fast());
    encoder.write_all(raw).unwrap();
    encoder.finish().unwrap()
}

/// A whole file: signature, header, one compressed image-data chunk, end.
fn build_file(width: u32, height: u32, color: u8, scanlines: &[u8]) -> Vec<u8> {
    let mut file = Vec::new();
    file.extend_from_slice(&SIGNATURE);
    file.extend_from_slice(&ihdr(width, height, 8, color, 0));
    file.extend_from_slice(&chunk(b"IDAT", &zlib(scanlines)));
    file.extend_from_slice(&chunk(b"IEND", &[]));
    file
}

#[test]
fn grayscale_unfiltered_rows_decode_to_raw_bytes() {
    // Filter type 0 on every row: the pixel buffer is the scanline bytes
    // with the filter bytes stripped.
    let scanlines: Vec<u8> = vec![
        0, 10, 20, 30, //
        0, 40, 50, 60, //
        0, 70, 80, 90,
    ];
    let file = build_file(3, 3, 0, &scanlines);
    let png = PngDecoder::new(&file).decode().unwrap();
    assert_eq!(png.width(), 3);
    assert_eq!(png.height(), 3);
    assert_eq!(png.color_type(), ColorType::Grayscale);
    assert_eq!(png.gamma(), 0);
    assert_eq!(png.dimensions(), (3, 3));
    let expected: Vec<u8> = vec![10, 20, 30, 40, 50, 60, 70, 80, 90];
    let gray: Vec<u8> = png.to_rgb8().iter().step_by(3).cloned().collect();
    assert_eq!(gray, expected);
}

#[test]
fn each_filter_type_reconstructs_exactly() {
    // A 3-wide, 5-tall grayscale image exercising all five filters, with the
    // reconstruction written out by hand.
    let scanlines: Vec<u8> = vec![
        0, 1, 2, 3, //     none: 1 2 3
        1, 5, 5, 5, //     sub:  5 10 15
        2, 1, 1, 1, //     up:   6 11 16
        3, 4, 4, 4, //     average: floor((0+6)/2)+4 = 7, floor((7+11)/2)+4 = 13,
        //                          floor((13+16)/2)+4 = 18
        4, 1, 1, 1, //     paeth: predictors 7, 13, 18 -> 8 14 19
    ];
    let file = build_file(3, 5, 0, &scanlines);
    let png = PngDecoder::new(&file).decode().unwrap();
    let gray: Vec<u8> = png.to_bitmap().iter().map(|&v| (v & 0xff) as u8).collect();
    assert_eq!(
        gray,
        vec![
            1, 2, 3, //
            5, 10, 15, //
            6, 11, 16, //
            7, 13, 18, //
            8, 14, 19,
        ]
    );
}

#[test]
fn corrupt_image_data_byte_is_a_corruption_error() {
    let scanlines: Vec<u8> = vec![0, 1, 2, 0, 3, 4];
    let mut file = build_file(2, 2, 0, &scanlines);
    // Flip one byte inside the image-data chunk's payload without
    // recomputing its checksum.
    let idat_payload_start = file.len() - chunk(b"IEND", &[]).len() - 8;
    file[idat_payload_start] ^= 0x40;
    let err = PngDecoder::new(&file).decode().unwrap_err();
    assert_eq!(err, DecodeError::Corruption);
}

#[test]
fn unsupported_compression_method_fails_before_later_chunks() {
    // The header names compression method 1; the file also carries a
    // mangled image-data chunk after it. The parse must fail on the header,
    // as a structure error, before the later chunk is examined.
    let mut data = Vec::new();
    data.extend_from_slice(&2u32.to_be_bytes());
    data.extend_from_slice(&2u32.to_be_bytes());
    data.push(8);
    data.push(0);
    data.push(1); // compression method
    data.push(0);
    data.push(0);
    let mut file = Vec::new();
    file.extend_from_slice(&SIGNATURE);
    file.extend_from_slice(&chunk(b"IHDR", &data));
    let mut bad_idat = chunk(b"IDAT", &zlib(&[0, 1, 2, 0, 3, 4]));
    let last = bad_idat.len() - 1;
    bad_idat[last] ^= 0xff; // break the checksum
    file.extend_from_slice(&bad_idat);
    file.extend_from_slice(&chunk(b"IEND", &[]));
    let err = PngDecoder::new(&file).decode().unwrap_err();
    assert_eq!(err, DecodeError::Structure);
}

#[test]
fn later_text_record_wins_for_a_repeated_keyword() {
    let mut stream = Vec::new();
    stream.extend_from_slice(&ihdr(1, 1, 8, 0, 0));
    stream.extend_from_slice(&chunk(b"tEXt", b"Title\0first"));
    stream.extend_from_slice(&chunk(b"tEXt", b"Title\0second"));
    stream.extend_from_slice(&chunk(b"IEND", &[]));

    let mut decoder = PngDecoder::new(&stream);
    let chunks = decoder.parse_chunks().unwrap();
    let text = chunks
        .iter()
        .find_map(|c| match c {
            Chunk::TextData(t) => Some(t),
            _ => None,
        })
        .unwrap();
    assert_eq!(text.len(), 1);
    assert_eq!(text.get(b"Title").unwrap(), b"second");
    assert!(text.get(b"Author").is_none());
}

#[test]
fn gamma_record_is_kept() {
    let scanlines: Vec<u8> = vec![0, 7];
    let mut file = Vec::new();
    file.extend_from_slice(&SIGNATURE);
    file.extend_from_slice(&ihdr(1, 1, 8, 0, 0));
    file.extend_from_slice(&chunk(b"gAMA", &45455u32.to_be_bytes()));
    file.extend_from_slice(&chunk(b"IDAT", &zlib(&scanlines)));
    file.extend_from_slice(&chunk(b"IEND", &[]));
    let png = PngDecoder::new(&file).decode().unwrap();
    assert_eq!(png.gamma(), 45455);
}

#[test]
fn truncated_file_is_a_truncation_error() {
    let file = [0x89u8, 0x50, 0x4e].to_vec();
    assert_eq!(PngDecoder::new(&file).decode().unwrap_err(), DecodeError::Truncation);

    let scanlines: Vec<u8> = vec![0, 7];
    let mut whole = build_file(1, 1, 0, &scanlines);
    whole.truncate(whole.len() - 6);
    assert_eq!(PngDecoder::new(&whole).decode().unwrap_err(), DecodeError::Truncation);
}

#[test]
fn bad_signature_is_a_structure_error() {
    let scanlines: Vec<u8> = vec![0, 7];
    let mut file = build_file(1, 1, 0, &scanlines);
    file[1] = 0x51;
    assert_eq!(PngDecoder::new(&file).decode().unwrap_err(), DecodeError::Structure);
}

#[test]
fn header_must_come_first() {
    let mut file = Vec::new();
    file.extend_from_slice(&SIGNATURE);
    file.extend_from_slice(&chunk(b"gAMA", &45455u32.to_be_bytes()));
    file.extend_from_slice(&ihdr(1, 1, 8, 0, 0));
    file.extend_from_slice(&chunk(b"IEND", &[]));
    assert_eq!(PngDecoder::new(&file).decode().unwrap_err(), DecodeError::Structure);
}

#[test]
fn invalid_filter_type_byte_is_a_structure_error() {
    let scanlines: Vec<u8> = vec![5, 7];
    let file = build_file(1, 1, 0, &scanlines);
    assert_eq!(PngDecoder::new(&file).decode().unwrap_err(), DecodeError::Structure);
}

#[test]
fn unknown_chunks_are_skipped_but_still_checked() {
    let scanlines: Vec<u8> = vec![0, 7];
    let mut file = Vec::new();
    file.extend_from_slice(&SIGNATURE);
    file.extend_from_slice(&ihdr(1, 1, 8, 0, 0));
    file.extend_from_slice(&chunk(b"tIME", &[1, 2, 3, 4, 5, 6, 7]));
    file.extend_from_slice(&chunk(b"IDAT", &zlib(&scanlines)));
    file.extend_from_slice(&chunk(b"IEND", &[]));
    assert!(PngDecoder::new(&file).decode().is_ok());

    // The same file with a corrupted unknown chunk fails.
    let mut broken = Vec::new();
    broken.extend_from_slice(&SIGNATURE);
    broken.extend_from_slice(&ihdr(1, 1, 8, 0, 0));
    let mut time = chunk(b"tIME", &[1, 2, 3, 4, 5, 6, 7]);
    let last = time.len() - 1;
    time[last] ^= 1;
    broken.extend_from_slice(&time);
    broken.extend_from_slice(&chunk(b"IDAT", &zlib(&scanlines)));
    broken.extend_from_slice(&chunk(b"IEND", &[]));
    assert_eq!(PngDecoder::new(&broken).decode().unwrap_err(), DecodeError::Corruption);
}

fn round_trip(width: u32, height: u32, color: u8, pixels: &[u8]) {
    // Rows of raw pixel bytes behind filter byte 0.
    let channels = match color {
        0 => 1,
        2 => 3,
        4 => 2,
        6 => 4,
        _ => unreachable!(),
    };
    let row_bytes = (width as usize) * channels;
    let mut scanlines = Vec::new();
    for row in pixels.chunks(row_bytes) {
        scanlines.push(0u8);
        scanlines.extend_from_slice(row);
    }
    let file = build_file(width, height, color, &scanlines);

    let first = PngDecoder::new(&file).decode().unwrap();
    let mut encoder = PngEncoder::new(Vec::new());
    encoder.encode(&first).unwrap();
    let reencoded = encoder.finish();
    let second = PngDecoder::new(&reencoded).decode().unwrap();
    assert!(first == second);
}

#[test]
fn round_trip_grayscale() {
    round_trip(3, 2, 0, &[1, 2, 3, 250, 251, 252]);
}

#[test]
fn round_trip_rgb() {
    round_trip(2, 2, 2, &[10, 20, 30, 40, 50, 60, 70, 80, 90, 100, 110, 120]);
}

#[test]
fn round_trip_grayscale_alpha() {
    round_trip(2, 2, 4, &[1, 255, 2, 254, 3, 253, 4, 252]);
}

#[test]
fn round_trip_rgba() {
    round_trip(1, 2, 6, &[9, 8, 7, 6, 5, 4, 3, 2]);
}

#[test]
fn adam7_and_sequential_agree_on_a_solid_image() {
    // An 8 by 8 solid-color image, once interlaced and once not,
    // reconstructs to the same buffer.
    let (r, g, b) = (12u8, 200u8, 99u8);
    let mut plain_rows = Vec::new();
    for _ in 0..8 {
        plain_rows.push(0u8);
        for _ in 0..8 {
            plain_rows.extend_from_slice(&[r, g, b]);
        }
    }
    let plain = build_file(8, 8, 2, &plain_rows);
    let sequential = PngDecoder::new(&plain).decode().unwrap();

    // The seven passes of an 8x8 image, each row one filter byte then the
    // solid pixels of the pass's width.
    let dims: [(usize, usize); 7] = [(1, 1), (1, 1), (2, 1), (2, 2), (4, 2), (4, 4), (8, 4)];
    let mut interlaced_rows = Vec::new();
    for (pw, ph) in dims {
        for _ in 0..ph {
            interlaced_rows.push(0u8);
            for _ in 0..pw {
                interlaced_rows.extend_from_slice(&[r, g, b]);
            }
        }
    }
    let mut file = Vec::new();
    file.extend_from_slice(&SIGNATURE);
    file.extend_from_slice(&ihdr(8, 8, 8, 2, 1));
    file.extend_from_slice(&chunk(b"IDAT", &zlib(&interlaced_rows)));
    file.extend_from_slice(&chunk(b"IEND", &[]));
    let interlaced = PngDecoder::new(&file).decode().unwrap();

    assert!(sequential == interlaced);
    assert_eq!(interlaced.to_rgb8(), {
        let mut solid = Vec::new();
        for _ in 0..64 {
            solid.extend_from_slice(&[r, g, b]);
        }
        solid
    });
}

#[test]
fn interlaced_sub_filter_reconstructs_within_each_pass() {
    // A 4x4 grayscale interlaced image whose last pass rows use the sub
    // filter: pass dims are 1x1, 0x1, 0x0(skipped), 1x1, 2x1, 2x2, 4x2.
    // For width 4, height 4: p1 1x1, p2 0, p3 1x0? compute: p1 ceil(4/8)=1 x 1;
    // p2 (4-4)/..=0; p3 w ceil(4/4)=1, h ceil((4-4)/8)=0; p4 ceil(2/4)=1 x 1;
    // p5 2 x ceil(2/4)=1; p6 ceil(3/2)=2 x 2; p7 4 x 2.
    let mut rows = Vec::new();
    rows.extend_from_slice(&[0, 100]); // pass 1: pixel (0,0)
    rows.extend_from_slice(&[0, 104]); // pass 4: pixel (2,0)
    rows.extend_from_slice(&[0, 110, 112]); // pass 5: pixels (0,2) (2,2)
    rows.extend_from_slice(&[1, 50, 10]); // pass 6 row 0: (1,0)=50 (3,0)=60
    rows.extend_from_slice(&[1, 70, 5]); // pass 6 row 1: (1,2)=70 (3,2)=75
    rows.extend_from_slice(&[1, 1, 1, 1, 1]); // pass 7 row 0: 1 2 3 4 at y=1
    rows.extend_from_slice(&[1, 9, 0, 0, 0]); // pass 7 row 1: 9 9 9 9 at y=3
    let mut file = Vec::new();
    file.extend_from_slice(&SIGNATURE);
    file.extend_from_slice(&ihdr(4, 4, 8, 0, 1));
    file.extend_from_slice(&chunk(b"IDAT", &zlib(&rows)));
    file.extend_from_slice(&chunk(b"IEND", &[]));
    let png = PngDecoder::new(&file).decode().unwrap();
    let gray: Vec<u8> = png.to_bitmap().iter().map(|&v| (v & 0xff) as u8).collect();
    assert_eq!(
        gray,
        vec![
            100, 50, 104, 60, //
            1, 2, 3, 4, //
            110, 70, 112, 75, //
            9, 9, 9, 9,
        ]
    );
}

#[test]
fn palette_rules_are_enforced() {
    // A palette chunk on a grayscale image is a structure error.
    let scanlines: Vec<u8> = vec![0, 7];
    let mut file = Vec::new();
    file.extend_from_slice(&SIGNATURE);
    file.extend_from_slice(&ihdr(1, 1, 8, 0, 0));
    file.extend_from_slice(&chunk(b"PLTE", &[1, 2, 3]));
    file.extend_from_slice(&chunk(b"IDAT", &zlib(&scanlines)));
    file.extend_from_slice(&chunk(b"IEND", &[]));
    assert_eq!(PngDecoder::new(&file).decode().unwrap_err(), DecodeError::Structure);

    // A palette whose length is not a whole number of triples fails too.
    let mut file = Vec::new();
    file.extend_from_slice(&SIGNATURE);
    file.extend_from_slice(&ihdr(1, 1, 8, 3, 0));
    file.extend_from_slice(&chunk(b"PLTE", &[1, 2, 3, 4]));
    file.extend_from_slice(&chunk(b"IDAT", &zlib(&scanlines)));
    file.extend_from_slice(&chunk(b"IEND", &[]));
    assert_eq!(PngDecoder::new(&file).decode().unwrap_err(), DecodeError::Structure);

    // A whole-triple palette on a palette-color image is stored.
    let mut file = Vec::new();
    file.extend_from_slice(&SIGNATURE);
    file.extend_from_slice(&ihdr(1, 1, 8, 3, 0));
    file.extend_from_slice(&chunk(b"PLTE", &[1, 2, 3, 4, 5, 6]));
    file.extend_from_slice(&chunk(b"IDAT", &zlib(&scanlines)));
    file.extend_from_slice(&chunk(b"IEND", &[]));
    let mut decoder = PngDecoder::new(&file[8..]);
    let chunks = decoder.parse_chunks().unwrap();
    let palette = chunks
        .iter()
        .find_map(|c| match c {
            Chunk::Palette(p) => Some(p.clone()),
            _ => None,
        })
        .unwrap();
    assert_eq!(palette, vec![1, 2, 3, 4, 5, 6]);
}

#[test]
fn conversions_reindex_layouts() {
    // One RGBA pixel.
    let scanlines: Vec<u8> = vec![0, 10, 20, 30, 40];
    let file = build_file(1, 1, 6, &scanlines);
    let png = PngDecoder::new(&file).decode().unwrap();
    assert_eq!(png.to_rgb8(), vec![10, 20, 30]);
    assert_eq!(png.to_rgba8(), vec![10, 20, 30, 40]);
    assert_eq!(png.to_bitmap(), vec![0x280a141e]);

    // Two grayscale-alpha pixels.
    let scanlines: Vec<u8> = vec![0, 9, 200, 0, 11, 100];
    let file = build_file(1, 2, 4, &scanlines);
    let png = PngDecoder::new(&file).decode().unwrap();
    assert_eq!(png.to_rgb8(), vec![9, 9, 9, 11, 11, 11]);
    assert_eq!(png.to_rgba8(), vec![9, 9, 9, 200, 11, 11, 11, 100]);
    assert_eq!(png.to_bitmap(), vec![0xc8090909, 0x640b0b0b]);
}

fn assert_png_field_access(p: &Png) -> (u32, u32) {
    (p.width(), p.height())
}

#[test]
fn missing_image_data_is_a_structure_error() {
    let mut file = Vec::new();
    file.extend_from_slice(&SIGNATURE);
    file.extend_from_slice(&ihdr(1, 1, 8, 0, 0));
    file.extend_from_slice(&chunk(b"IEND", &[]));
    assert_eq!(PngDecoder::new(&file).decode().unwrap_err(), DecodeError::Structure);
}

#[test]
fn wrong_stream_length_is_a_corruption_error() {
    // One trailing byte too many in the decompressed stream.
    let scanlines: Vec<u8> = vec![0, 7, 8];
    let file = build_file(1, 1, 0, &scanlines);
    let png = PngDecoder::new(&file).decode();
    assert_eq!(png.unwrap_err(), DecodeError::Corruption);
}

#[test]
fn encoder_emits_a_decodable_file() {
    let scanlines: Vec<u8> = vec![0, 1, 2, 1, 3, 4];
    let file = build_file(2, 2, 0, &scanlines);
    let png = PngDecoder::new(&file).decode().unwrap();
    let (w, h) = assert_png_field_access(&png);
    assert_eq!((w, h), (2, 2));

    let mut encoder = PngEncoder::new(Vec::new());
    encoder.encode(&png).unwrap();
    let bytes = encoder.finish();
    assert_eq!(&bytes[0..8], &SIGNATURE);
    let again = PngDecoder::new(&bytes).decode().unwrap();
    assert!(png == again);
}
