use pngcodec::bitstream::BitstreamReader;

#[test]
fn test_read_nbits() {
    let data = [0b1111_1010];
    let mut bitstream = BitstreamReader::new(&data);

    assert_eq!(0, bitstream.read_bit().unwrap());

    assert_eq!(0b01, bitstream.read_nbits(2).unwrap());
    assert_eq!(0b11111, bitstream.read_nbits(5).unwrap());

    assert!(bitstream.read_nbits(1).is_err());
}

#[test]
fn test_read_bit() {
    let data = [0b0101_1010];
    let mut bitstream = BitstreamReader::new(&data);

    assert_eq!(0b101_1010, bitstream.read_nbits(7).unwrap());
    assert_eq!(0b0, bitstream.read_bit().unwrap());
    assert!(bitstream.read_bit().is_err());
}

#[test]
fn test_next_byte() {
    let data = [0, 0b1111_1010, 0b0101_0101];
    let mut bitstream = BitstreamReader::new(&data);

    assert_eq!(0, bitstream.read_nbits(6).unwrap());
    bitstream.next_byte().unwrap();

    assert_eq!(0b010, bitstream.read_nbits(3).unwrap());
    assert_eq!(0b1_1111, bitstream.read_nbits(5).unwrap());
    bitstream.next_byte().unwrap();

    assert_eq!(0b0101_0101, bitstream.read_nbits(8).unwrap());
}

#[test]
fn test_read_u16_and_slice_need_alignment() {
    let data = [0x12, 0x34, 0x56, 0x78];
    let mut bitstream = BitstreamReader::new(&data);

    assert_eq!(0x1234, bitstream.read_u16().unwrap());
    assert_eq!(&[0x56], bitstream.read_slice(1).unwrap());

    let mut unaligned = BitstreamReader::new(&data);
    unaligned.read_bit().unwrap();
    assert!(unaligned.read_u16().is_err());
    assert!(unaligned.read_slice(1).is_err());

    // Aligned but exhausted reads fail too, and an empty slice request is
    // refused; the cursor stays put, so a fitting read still succeeds.
    let short = [0x12u8];
    let mut b = BitstreamReader::new(&short);
    assert!(b.read_u16().is_err());
    assert!(b.read_slice(0).is_err());
    assert!(b.read_slice(2).is_err());
    assert_eq!(&[0x12], b.read_slice(1).unwrap());
}
