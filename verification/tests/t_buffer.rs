use msg800::buffer::{read_u16_be, read_u64_be};

#[test]
fn read_u64_be_reads_big_endian() {
    let bytes = [0xaa, 0x01, 0x02, 0x03, 0x04, 0x05, 0x06, 0x07, 0x08, 0xbb];
    assert_eq!(read_u64_be(&bytes, 1), 0x0102030405060708);
    assert_eq!(read_u64_be(&0x20240828u64.to_be_bytes(), 0), 0x20240828);
}

#[test]
fn read_u16_be_reads_big_endian() {
    assert_eq!(read_u16_be(&[0x1f, 0x90], 0), 8080);
    assert_eq!(read_u16_be(&[0, 0x00, 0x50], 1), 80);
}
