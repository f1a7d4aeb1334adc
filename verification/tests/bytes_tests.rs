use nali_rs::bytes::{bytes3_to_u32, read_u16_le, read_u24_le, read_u32_le, read_u64_le};

#[test]
fn mod_test_bytes3_to_u32() {
    let data = [0x01, 0x02, 0x03];
    let result = bytes3_to_u32(&data);
    assert_eq!(result, 0x00030201);
}

#[test]
fn utils_test_bytes3_to_u32() {
    let data = [0x01, 0x02, 0x03];
    let result = nali_rs::zxipv6::bytes3_to_u32(&data);
    assert_eq!(result, 0x00030201);
}

#[test]
fn bytes3_uses_only_the_first_three_bytes() {
    let data = [0xff, 0xff, 0xff, 0x7f];
    assert_eq!(bytes3_to_u32(&data), 0x00ff_ffff);
}

#[test]
fn little_endian_reads() {
    let data = [0x00, 0x01, 0x02, 0x03, 0x04, 0x05, 0x06, 0x07, 0x08, 0x09];
    assert_eq!(read_u16_le(&data, 1), 0x0201);
    assert_eq!(read_u24_le(&data, 1), 0x03_0201);
    assert_eq!(read_u32_le(&data, 1), 0x0403_0201);
    assert_eq!(read_u64_le(&data, 1), 0x0807_0605_0403_0201);
    assert_eq!(read_u64_le(&[0xff; 8], 0), u64::MAX);
    assert_eq!(read_u32_le(&[0xff; 4], 0), u32::MAX);
}
