use binserde::fixed::{zigzag_decode, zigzag_encode};
use binserde::varint::{decode_varint, encode_varint};
use binserde::{Error, Source};

fn encoded(n: u64) -> Vec<u8> {
    let mut out = Vec::new();
    encode_varint(&mut out, n);
    out
}

fn groups_needed(n: u64) -> usize {
    if n == 0 {
        1
    } else {
        let bits = 64 - n.leading_zeros() as usize;
        (bits + 6) / 7
    }
}

#[test]
fn varint_known_encodings() {
    assert_eq!(encoded(0), vec![0x00]);
    assert_eq!(encoded(1), vec![0x01]);
    assert_eq!(encoded(127), vec![0x7F]);
    assert_eq!(encoded(128), vec![0x80, 0x01]);
    assert_eq!(encoded(300), vec![0xAC, 0x02]);
    assert_eq!(encoded(16383), vec![0xFF, 0x7F]);
    assert_eq!(encoded(16384), vec![0x80, 0x80, 0x01]);
    assert_eq!(
        encoded(u64::MAX),
        vec![0xFF, 0xFF, 0xFF, 0xFF, 0xFF, 0xFF, 0xFF, 0xFF, 0xFF, 0x01]
    );
}

#[test]
fn varint_appends_to_what_is_there() {
    let mut out = vec![9, 9];
    encode_varint(&mut out, 300);
    assert_eq!(out, vec![9, 9, 0xAC, 0x02]);
}

#[test]
fn varint_round_trip_and_length() {
    let mut samples: Vec<u64> = vec![0, 1, 2, 127, 128, 129, 255, 256, 16383, 16384, u64::MAX];
    for shift in 0..64 {
        samples.push(1u64 << shift);
        samples.push((1u64 << shift) - 1);
        samples.push((1u64 << shift) + 1);
    }
    for n in samples {
        let bytes = encoded(n);
        assert_eq!(bytes.len(), groups_needed(n));
        let mut src = Source::new(&bytes);
        assert_eq!(decode_varint(&mut src), Ok(n));
        assert_eq!(src.available(), 0);
    }
}

#[test]
fn varint_leaves_what_follows() {
    let bytes = [0xAC, 0x02, 0x55, 0x66];
    let mut src = Source::new(&bytes);
    assert_eq!(decode_varint(&mut src), Ok(300));
    assert_eq!(src.available(), 2);
    assert_eq!(src.read_byte(), Ok(0x55));
}

#[test]
fn varint_with_padding_groups_is_read() {
    let bytes = [0x80, 0x00];
    let mut src = Source::new(&bytes);
    assert_eq!(decode_varint(&mut src), Ok(0));
    assert_eq!(src.available(), 0);
}

#[test]
fn varint_of_more_than_ten_groups_overflows() {
    let bytes = [0x80; 11];
    let mut src = Source::new(&bytes);
    assert_eq!(decode_varint(&mut src), Err(Error::TryFromInt));
    let bytes = [0x80, 0x80, 0x80, 0x80, 0x80, 0x80, 0x80, 0x80, 0x80, 0x80, 0x01];
    let mut src = Source::new(&bytes);
    assert_eq!(decode_varint(&mut src), Err(Error::TryFromInt));
}

#[test]
fn varint_above_64_bits_overflows() {
    let bytes = [0xFF, 0xFF, 0xFF, 0xFF, 0xFF, 0xFF, 0xFF, 0xFF, 0xFF, 0x02];
    let mut src = Source::new(&bytes);
    assert_eq!(decode_varint(&mut src), Err(Error::TryFromInt));
}

#[test]
fn varint_cut_short_is_io() {
    let mut src = Source::new(&[]);
    assert_eq!(decode_varint(&mut src), Err(Error::Io));
    let bytes = [0x80, 0x80];
    let mut src = Source::new(&bytes);
    assert_eq!(decode_varint(&mut src), Err(Error::Io));
}

#[test]
fn zigzag_known_values() {
    assert_eq!(zigzag_encode(0), 0);
    assert_eq!(zigzag_encode(-1), 1);
    assert_eq!(zigzag_encode(1), 2);
    assert_eq!(zigzag_encode(-2), 3);
    assert_eq!(zigzag_encode(-35), 69);
    assert_eq!(zigzag_encode(i64::MAX), u64::MAX - 1);
    assert_eq!(zigzag_encode(i64::MIN), u64::MAX);
}

#[test]
fn zigzag_round_trip_within_width() {
    for i in [0i64, 1, -1, 2, -2, 127, -128, 32767, -32768, i64::MAX, i64::MIN] {
        assert_eq!(zigzag_decode(zigzag_encode(i), 8), Some(i));
    }
    assert_eq!(zigzag_decode(zigzag_encode(32767), 2), Some(32767));
    assert_eq!(zigzag_decode(zigzag_encode(-32768), 2), Some(-32768));
    assert_eq!(zigzag_decode(zigzag_encode(32768), 2), None);
    assert_eq!(zigzag_decode(zigzag_encode(-32769), 2), None);
}
