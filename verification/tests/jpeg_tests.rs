use pngcodec::jpeg::decoder::JpegDecoder;
use pngcodec::jpeg::grammar::EncodingProcess;
use pngcodec::jpeg::grammar::HuffmanTableClass;
use pngcodec::jpeg::grammar::Precision;

fn segment(marker: u16, payload: &[u8]) -> Vec<u8> {
    let mut out = Vec::new();
    out.extend_from_slice(&marker.to_be_bytes());
    out.extend_from_slice(&((payload.len() + 2) as u16).to_be_bytes());
    out.extend_from_slice(payload);
    out
}

fn minimal_file() -> Vec<u8> {
    let mut file = Vec::new();
    file.extend_from_slice(&0xffd8u16.to_be_bytes());

    let mut app0 = Vec::new();
    app0.extend_from_slice(b"JFIF\0");
    app0.extend_from_slice(&[1, 1, 0]);
    app0.extend_from_slice(&72u16.to_be_bytes());
    app0.extend_from_slice(&72u16.to_be_bytes());
    app0.extend_from_slice(&[0, 0]);
    file.extend_from_slice(&segment(0xffe0, &app0));

    let mut dqt = vec![0x01u8];
    dqt.extend_from_slice(&[7u8; 64]);
    file.extend_from_slice(&segment(0xffdb, &dqt));

    for flag in [0x00u8, 0x01, 0x10, 0x11] {
        let mut dht = vec![flag];
        dht.extend_from_slice(&[0u8; 16]);
        file.extend_from_slice(&segment(0xffc4, &dht));
    }

    let mut sof = vec![8u8];
    sof.extend_from_slice(&1u16.to_be_bytes());
    sof.extend_from_slice(&1u16.to_be_bytes());
    sof.push(1);
    sof.extend_from_slice(&[1, 0x11, 0]);
    file.extend_from_slice(&segment(0xffc0, &sof));

    let mut sos = vec![1u8];
    sos.extend_from_slice(&[1, 0]);
    sos.extend_from_slice(&[0, 63, 0]);
    file.extend_from_slice(&segment(0xffda, &sos));

    file.extend_from_slice(&[0xaa, 0xbb, 0xcc]);
    file.extend_from_slice(&0xffd9u16.to_be_bytes());
    file
}

#[test]
fn minimal_interchange_header_parses() {
    let file = minimal_file();
    let mut decoder = JpegDecoder::new(&file);
    let jfif = decoder.parse_jfif().unwrap();

    assert_eq!(jfif.application_header.version, (1, 1));
    assert_eq!(jfif.application_header.density, (72, 72));
    assert_eq!(jfif.quantization_tables.len(), 1);
    assert_eq!(jfif.quantization_tables[0].table_identifier(), 1);
    assert_eq!(jfif.quantization_tables[0].precision(), Precision::Eight);
    assert_eq!(jfif.huffman_tables.len(), 4);
    assert_eq!(jfif.huffman_tables[0].table_class(), HuffmanTableClass::DC);
    assert_eq!(jfif.huffman_tables[2].table_class(), HuffmanTableClass::AC);
    assert_eq!(jfif.huffman_tables[2].table_identifier(), 0);
    assert_eq!(
        jfif.start_of_frame.encoding_process,
        EncodingProcess::BaselineDCT
    );
    assert_eq!(jfif.start_of_frame.lines, 1);
    assert_eq!(jfif.start_of_scan.spectral_select, (0, 63));
    assert_eq!(jfif.image_data, &[0xaa, 0xbb, 0xcc]);
}

#[test]
fn a_missing_start_marker_is_rejected() {
    let mut file = minimal_file();
    file[0] = 0;
    let mut decoder = JpegDecoder::new(&file);
    assert!(decoder.parse_jfif().is_err());
}
