//! The byte-cursor primitives and the little-endian codecs, exercised on
//! concrete inputs, boundary values included.
use esm::parse::{count, le_i16, le_i32, le_i64, le_u16, le_u32, le_u64, many, single, tag, take, take_until, Parse};

const DATA: &[u8] = &[
    0x1, 0x2, 0x3, 0x4, 0x5, 0x6, 0x7, 0x8, 0x9, 0xa, 0xb, 0xc, 0xd, 0xe, 0xf,
];

#[test]
fn test_take() {
    let (res, bytes) = take(DATA, 4).unwrap();
    assert_eq!(bytes, &[0x1, 0x2, 0x3, 0x4]);
    assert_eq!(res, &[0x5, 0x6, 0x7, 0x8, 0x9, 0xa, 0xb, 0xc, 0xd, 0xe, 0xf]);
    let (res, bytes) = take(res, 2).unwrap();
    assert_eq!(bytes, &[0x5, 0x6]);
    assert_eq!(res, &[0x7, 0x8, 0x9, 0xa, 0xb, 0xc, 0xd, 0xe, 0xf]);
}

#[test]
fn test_tag() {
    let (res, bytes) = tag(DATA, &[0x1, 0x2]).unwrap();
    assert_eq!(bytes, &[0x1, 0x2]);
    assert_eq!(res, &[0x3, 0x4, 0x5, 0x6, 0x7, 0x8, 0x9, 0xa, 0xb, 0xc, 0xd, 0xe, 0xf]);
}

#[test]
fn test_take_until() {
    let (res, bytes) = take_until(DATA, 0x4).unwrap();
    assert_eq!(bytes, [0x1, 0x2, 0x3]);
    assert_eq!(res, &[0x4, 0x5, 0x6, 0x7, 0x8, 0x9, 0xa, 0xb, 0xc, 0xd, 0xe, 0xf]);
}

#[test]
fn test_count() {
    let (res, bytes) = count(DATA, |x| take(x, 2), 3).unwrap();
    assert_eq!(bytes.len(), 3);
    assert_eq!(bytes[0], &[0x1, 0x2]);
    assert_eq!(bytes[1], &[0x3, 0x4]);
    assert_eq!(bytes[2], &[0x5, 0x6]);
    assert_eq!(res, &[0x7, 0x8, 0x9, 0xa, 0xb, 0xc, 0xd, 0xe, 0xf]);
}

#[test]
fn test_many() {
    let (res, bytes) = many(DATA, |x| take(x, 3)).unwrap();
    assert_eq!(res, &[]);
    assert_eq!(bytes.len(), 5);
    assert_eq!(bytes[0], &[0x1, 0x2, 0x3]);
    assert_eq!(bytes[1], &[0x4, 0x5, 0x6]);
    assert_eq!(bytes[2], &[0x7, 0x8, 0x9]);
    assert_eq!(bytes[3], &[0xa, 0xb, 0xc]);
    assert_eq!(bytes[4], &[0xd, 0xe, 0xf]);
}

#[test]
fn single_reads_one_byte() {
    let (rest, v) = single(DATA).unwrap();
    assert_eq!(v, 0x1);
    assert_eq!(rest.len(), 14);
    assert!(single(&[]).is_err());
}

fn roundtrip_u16(v: u16) {
    let enc = v.to_le_bytes();
    let (rest, back) = le_u16(&enc).unwrap();
    assert!(rest.is_empty());
    assert_eq!(back, v);
}

fn roundtrip_i16(v: i16) {
    let enc = v.to_le_bytes();
    let (_, back) = le_i16(&enc).unwrap();
    assert_eq!(back, v);
}

fn roundtrip_u32(v: u32) {
    let enc = v.to_le_bytes();
    let (_, back) = le_u32(&enc).unwrap();
    assert_eq!(back, v);
}

fn roundtrip_i32(v: i32) {
    let enc = v.to_le_bytes();
    let (_, back) = le_i32(&enc).unwrap();
    assert_eq!(back, v);
}

fn roundtrip_u64(v: u64) {
    let enc = v.to_le_bytes();
    let (_, back) = le_u64(&enc).unwrap();
    assert_eq!(back, v);
}

fn roundtrip_i64(v: i64) {
    let enc = v.to_le_bytes();
    let (_, back) = le_i64(&enc).unwrap();
    assert_eq!(back, v);
}

#[test]
fn little_endian_round_trips_at_boundaries() {
    for v in [0u16, 1, 0x1234, u16::MAX] {
        roundtrip_u16(v);
    }
    for v in [i16::MIN, -1, 0, 1, 0x1234, i16::MAX] {
        roundtrip_i16(v);
    }
    for v in [0u32, 1, 0xdead_beef, u32::MAX] {
        roundtrip_u32(v);
    }
    for v in [i32::MIN, -1, 0, 1, 0x12345678, i32::MAX] {
        roundtrip_i32(v);
    }
    for v in [0u64, 1, 0x0123_4567_89ab_cdef, u64::MAX] {
        roundtrip_u64(v);
    }
    for v in [i64::MIN, -1, 0, 1, 0x0123_4567_89ab_cdef, i64::MAX] {
        roundtrip_i64(v);
    }
    let (_, b) = u8::parse(&[0x80]).unwrap();
    assert_eq!(b, 0x80);
    let (_, b) = i8::parse(&[0xff]).unwrap();
    assert_eq!(b, -1i8);
    // the f32 wire value is its bits, little-endian, kept verbatim
    let bits = 4.29f32.to_bits();
    let enc = 4.29f32.to_le_bytes();
    let (_, back) = le_u32(&enc).unwrap();
    assert_eq!(f32::from_bits(back), 4.29f32);
    assert_eq!(back, bits);
}

#[test]
fn le_u16_rejects_short_input() {
    assert!(le_u16(&[0x01]).is_err());
    assert!(le_u32(&[0x01, 0x02, 0x03]).is_err());
    assert!(le_u64(&[0x01; 7]).is_err());
}
