use binserde::fixed::{decode_fixed, encode_fixed, radix, twos_decode, twos_encode};
use binserde::{Error, Source};

#[test]
fn fixed_is_little_endian() {
    let mut out = Vec::new();
    encode_fixed(&mut out, 0x1234, 2);
    assert_eq!(out, vec![0x34, 0x12]);
    let mut out = Vec::new();
    encode_fixed(&mut out, 0x0102_0304, 4);
    assert_eq!(out, vec![0x04, 0x03, 0x02, 0x01]);
    let mut out = vec![7];
    encode_fixed(&mut out, 0x0102_0304_0506_0708, 8);
    assert_eq!(out, vec![7, 0x08, 0x07, 0x06, 0x05, 0x04, 0x03, 0x02, 0x01]);
}

#[test]
fn fixed_round_trip() {
    for (n, width) in [
        (0u64, 1usize),
        (255, 1),
        (0x1234, 2),
        (0xFFFF, 2),
        (0xDEAD_BEEF, 4),
        (u64::MAX, 8),
        (1, 8),
    ] {
        let mut out = Vec::new();
        encode_fixed(&mut out, n, width);
        assert_eq!(out.len(), width);
        out.push(0xAA);
        let mut src = Source::new(&out);
        assert_eq!(decode_fixed(&mut src, width), Ok(n));
        assert_eq!(src.available(), 1);
    }
}

#[test]
fn fixed_cut_short_is_io() {
    let bytes = [1, 2, 3];
    let mut src = Source::new(&bytes);
    assert_eq!(decode_fixed(&mut src, 4), Err(Error::Io));
    assert_eq!(src.available(), 3);
}

#[test]
fn radix_is_a_power_of_256() {
    assert_eq!(radix(0), 1);
    assert_eq!(radix(1), 256);
    assert_eq!(radix(2), 65536);
    assert_eq!(radix(4), 1u128 << 32);
    assert_eq!(radix(8), 1u128 << 64);
}

#[test]
fn twos_complement_known_values() {
    assert_eq!(twos_encode(-1, 1), 0xFF);
    assert_eq!(twos_encode(-128, 1), 0x80);
    assert_eq!(twos_encode(127, 1), 0x7F);
    assert_eq!(twos_encode(-1, 2), 0xFFFF);
    assert_eq!(twos_encode(-3, 4), 0xFFFF_FFFD);
    assert_eq!(twos_encode(i64::MIN, 8), 1u64 << 63);
    assert_eq!(twos_decode(0xFF, 1), -1);
    assert_eq!(twos_decode(0x80, 1), -128);
    assert_eq!(twos_decode(0x7F, 1), 127);
    assert_eq!(twos_decode(0xFFFF_FFFD, 4), -3);
    assert_eq!(twos_decode(u64::MAX, 8), -1);
}
