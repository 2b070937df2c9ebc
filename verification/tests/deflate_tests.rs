use pngcodec::deflate::DeflateDecompressor;
use pngcodec::grammar::DecodeError;

#[test]
fn accepts_a_standard_stream_head() {
    // Compression method 8 with a 32K window, then padding and the four
    // trailing check bytes.
    let data = vec![0x78, 0x9c, 1, 2, 3, 4, 5, 6];
    let mut d = DeflateDecompressor::new(data);
    assert!(d.decompress().is_ok());
}

#[test]
fn rejects_a_foreign_compression_method() {
    let data = vec![0x79, 0x9c, 1, 2, 3, 4, 5, 6];
    let mut d = DeflateDecompressor::new(data);
    assert_eq!(d.decompress().unwrap_err(), DecodeError::Corruption);
}

#[test]
fn rejects_a_short_stream() {
    let data = vec![0x78, 0x9c, 1];
    let mut d = DeflateDecompressor::new(data);
    assert_eq!(d.decompress().unwrap_err(), DecodeError::Truncation);
}
