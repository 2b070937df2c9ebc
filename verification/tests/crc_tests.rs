use pngcodec::crc32::compute_crc;

#[test]
fn known_checksum_values() {
    // The checksum of the bare terminator tag, as every encoder stamps it.
    assert_eq!(compute_crc(b"IEND", &[]), 0xae426082);
    // Splitting the input between the two arguments changes nothing.
    assert_eq!(compute_crc(b"IE", b"ND"), 0xae426082);
    assert_eq!(compute_crc(b"", b"IEND"), 0xae426082);
}

#[test]
fn single_bit_flips_always_change_the_checksum() {
    // Corruption sensitivity: flipping any single bit of the tag or the
    // payload changes the computed checksum.
    let tag = *b"IDAT";
    let data: Vec<u8> = (0u8..32).collect();
    let reference = compute_crc(&tag, &data);
    for byte in 0..4 {
        for bit in 0..8 {
            let mut t = tag;
            t[byte] ^= 1 << bit;
            assert_ne!(compute_crc(&t, &data), reference);
        }
    }
    for byte in 0..data.len() {
        for bit in 0..8 {
            let mut d = data.clone();
            d[byte] ^= 1 << bit;
            assert_ne!(compute_crc(&tag, &d), reference);
        }
    }
}
