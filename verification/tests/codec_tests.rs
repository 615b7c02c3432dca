use rooster_governor::codec::{
    push_compact_u32, push_u128_le, push_u32_le, push_u64_le, read_le64,
};

#[test]
fn u32_le_exact_bytes() {
    let mut v: Vec<u8> = Vec::new();
    push_u32_le(&mut v, 0x0403_0201);
    assert_eq!(v, vec![0x01, 0x02, 0x03, 0x04]);
}

#[test]
fn u64_le_exact_bytes() {
    let mut v: Vec<u8> = Vec::new();
    push_u64_le(&mut v, 0x0807_0605_0403_0201);
    assert_eq!(v, vec![0x01, 0x02, 0x03, 0x04, 0x05, 0x06, 0x07, 0x08]);
}

#[test]
fn u128_le_exact_bytes() {
    let mut v: Vec<u8> = Vec::new();
    push_u128_le(&mut v, 1);
    assert_eq!(v.len(), 16);
    assert_eq!(v[0], 1);
    assert!(v[1..].iter().all(|&b| b == 0));
}

#[test]
fn compact_single_byte_mode() {
    let mut v: Vec<u8> = Vec::new();
    push_compact_u32(&mut v, 5);
    assert_eq!(v, vec![20]);
    let mut w: Vec<u8> = Vec::new();
    push_compact_u32(&mut w, 0);
    assert_eq!(w, vec![0]);
    let mut x: Vec<u8> = Vec::new();
    push_compact_u32(&mut x, 63);
    assert_eq!(x, vec![252]);
}

#[test]
fn compact_two_byte_mode() {
    let mut v: Vec<u8> = Vec::new();
    push_compact_u32(&mut v, 64);
    // 64 * 4 + 1 = 257 = 0x0101, little-endian
    assert_eq!(v, vec![0x01, 0x01]);
    let mut w: Vec<u8> = Vec::new();
    push_compact_u32(&mut w, 16383);
    // 16383 * 4 + 1 = 65533 = 0xfffd
    assert_eq!(w, vec![0xfd, 0xff]);
}

#[test]
fn compact_four_byte_mode() {
    let mut v: Vec<u8> = Vec::new();
    push_compact_u32(&mut v, 16384);
    // 16384 * 4 + 2 = 65538 = 0x00010002
    assert_eq!(v, vec![0x02, 0x00, 0x01, 0x00]);
}

#[test]
fn compact_marker_mode() {
    let mut v: Vec<u8> = Vec::new();
    push_compact_u32(&mut v, 1_073_741_824);
    // marker byte 3, then the value 2^30 little-endian
    assert_eq!(v, vec![3, 0x00, 0x00, 0x00, 0x40]);
}

#[test]
fn read_le64_roundtrip() {
    let mut v: Vec<u8> = Vec::new();
    push_u64_le(&mut v, 0xdead_beef_0102_0304);
    push_u64_le(&mut v, 42);
    assert_eq!(read_le64(&v, 0), 0xdead_beef_0102_0304);
    assert_eq!(read_le64(&v, 8), 42);
}
