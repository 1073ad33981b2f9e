use benchmark::wire::{get_le, get_u16_le, get_u32_le, get_u64_le, put_le};

#[test]
fn put_le_writes_least_significant_byte_first() {
    let mut out = Vec::new();
    put_le(&mut out, 0x0809_A0A1, 4);
    assert_eq!(out, vec![0xA1, 0xA0, 0x09, 0x08]);
}

#[test]
fn put_le_appends_to_what_is_there() {
    let mut out = vec![0xFF];
    put_le(&mut out, 0x0102, 2);
    put_le(&mut out, 0x0102_0304_0506_0708, 8);
    assert_eq!(out, vec![0xFF, 0x02, 0x01, 0x08, 0x07, 0x06, 0x05, 0x04, 0x03, 0x02, 0x01]);
}

#[test]
fn put_le_of_width_zero_writes_nothing() {
    let mut out = vec![7u8];
    put_le(&mut out, 0x1234, 0);
    assert_eq!(out, vec![7u8]);
}

#[test]
fn put_le_keeps_only_the_low_digits() {
    let mut out = Vec::new();
    put_le(&mut out, 0x1_0000_0001, 4);
    assert_eq!(out, vec![1, 0, 0, 0]);
}

#[test]
fn get_le_reads_at_an_offset() {
    let data = [0xEEu8, 0xA1, 0xA0, 0x09, 0x08, 0xEE];
    assert_eq!(get_le(&data, 1, 4), 0x0809_A0A1);
    assert_eq!(get_u32_le(&data, 1), 0x0809_A0A1);
    assert_eq!(get_u16_le(&data, 1), 0xA0A1);
    assert_eq!(get_le(&data, 3, 0), 0);
}

#[test]
fn get_u64_le_reads_eight_bytes() {
    let data = [0x08u8, 0x07, 0x06, 0x05, 0x04, 0x03, 0x02, 0x01];
    assert_eq!(get_u64_le(&data, 0), 0x0102_0304_0506_0708);
}

#[test]
fn integers_survive_the_wire() {
    let values: [u64; 6] = [0, 1, 255, 256, 0xDEAD_BEEF, u64::MAX];
    for v in values {
        let mut out = Vec::new();
        put_le(&mut out, v, 8);
        assert_eq!(out.len(), 8);
        assert_eq!(get_u64_le(&out, 0), v);
        assert_eq!(out, v.to_le_bytes().to_vec());
    }
    let mut out = Vec::new();
    put_le(&mut out, u32::MAX as u64, 4);
    assert_eq!(get_u32_le(&out, 0), u32::MAX);
    let mut out = Vec::new();
    put_le(&mut out, u16::MAX as u64, 2);
    assert_eq!(get_u16_le(&out, 0), u16::MAX);
}
