//! Integers at fixed width: little-endian bytes, and negative numbers in two's
//! complement.

use crate::error::{Error, Fault};
use crate::source::{advanced, Source};
use crate::varint::{unzigzag, zigzag};
use vstd::prelude::*;

verus! {

/// 256 to the power `k`: how many numbers `k` bytes can hold.
pub open spec fn pow256(k: nat) -> nat
    decreases k,
{
    if k == 0 {
        1
    } else {
        256 * pow256((k - 1) as nat)
    }
}

/// The `width` low bytes of `n`, least significant first.
pub open spec fn le_bytes(n: nat, width: nat) -> Seq<u8>
    decreases width,
{
    if width == 0 {
        Seq::empty()
    } else {
        seq![(n % 256) as u8] + le_bytes(n / 256, (width - 1) as nat)
    }
}

/// The number whose little-endian bytes are `bytes`.
pub open spec fn le_value(bytes: Seq<u8>) -> nat
    decreases bytes.len(),
{
    if bytes.len() == 0 {
        0
    } else {
        bytes[0] as nat + 256 * le_value(bytes.drop_first())
    }
}

/// Whether the signed `i` fits `width` bytes in two's complement.
pub open spec fn signed_fits(i: int, width: nat) -> bool {
    -pow256(width) <= 2 * i < pow256(width)
}

/// The unsigned number with the same `width` bytes as the signed `i`.
pub open spec fn twos(i: int, width: nat) -> nat {
    if i >= 0 {
        i as nat
    } else {
        (i + pow256(width)) as nat
    }
}

/// The signed number with the same `width` bytes as the unsigned `n`.
pub open spec fn untwos(n: nat, width: nat) -> int {
    if 2 * n < pow256(width) {
        n as int
    } else {
        n - pow256(width)
    }
}

/// What reading `width` little-endian bytes at the head of `input` gives, or
/// [`Fault::Io`] where fewer are left.
pub open spec fn parse_fixed(input: Seq<u8>, width: nat) -> Result<(nat, nat), Fault> {
    if input.len() < width {
        Err(Fault::Io)
    } else {
        Ok((le_value(input.take(width as int)), width))
    }
}

/// The powers of 256 at the widths of the integer types.
pub proof fn lemma_pow256_values()
    ensures
        pow256(0) == 1,
        pow256(1) == 0x100,
        pow256(2) == 0x1_0000,
        pow256(4) == 0x1_0000_0000,
        pow256(7) == 0x100_0000_0000_0000,
        pow256(8) == 0x1_0000_0000_0000_0000,
{
    reveal_with_fuel(pow256, 9);
}

/// A larger width holds more numbers.
pub proof fn lemma_pow256_grows(i: nat, j: nat)
    requires
        i <= j,
    ensures
        1 <= pow256(i) <= pow256(j),
    decreases j,
{
    if j == 0 {
    } else if i == j {
        lemma_pow256_grows((i - 1) as nat, (j - 1) as nat);
    } else {
        lemma_pow256_grows(i, (j - 1) as nat);
    }
}

/// A number written at a width that holds it is `width` bytes long and reads back
/// as itself.
pub proof fn lemma_le_round_trip(n: nat, width: nat)
    ensures
        le_bytes(n, width).len() == width,
        n < pow256(width) ==> le_value(le_bytes(n, width)) == n,
    decreases width,
{
    if width > 0 {
        lemma_le_round_trip(n / 256, (width - 1) as nat);
        let bytes = le_bytes(n, width);
        assert(bytes.drop_first() == le_bytes(n / 256, (width - 1) as nat));
    }
}

/// Reading what was written for `n` at `width` gives `n` back, whatever follows.
pub proof fn lemma_fixed_round_trip(n: nat, width: nat, rest: Seq<u8>)
    requires
        n < pow256(width),
    ensures
        parse_fixed(le_bytes(n, width) + rest, width) == Ok::<(nat, nat), Fault>((n, width)),
        le_bytes(n, width).len() == width,
{
    lemma_le_round_trip(n, width);
    assert((le_bytes(n, width) + rest).take(width as int) == le_bytes(n, width));
}

/// A signed number that fits its width has a two's complement at that width, and
/// reads back from it as itself.
pub proof fn lemma_twos_round_trip(i: int, width: nat)
    requires
        signed_fits(i, width),
    ensures
        twos(i, width) < pow256(width),
        untwos(twos(i, width), width) == i,
{
}

/// What `untwos` gives fits the width, for every number below its power of 256.
pub proof fn lemma_untwos_fits(n: nat, width: nat)
    requires
        n < pow256(width),
        width >= 1,
    ensures
        signed_fits(untwos(n, width), width),
        twos(untwos(n, width), width) == n,
{
    assert(pow256(width) == 256 * pow256((width - 1) as nat));
}

/// How many numbers `width` bytes can hold.
pub fn radix(width: usize) -> (p: u128)
    requires
        width <= 8,
    ensures
        p == pow256(width as nat),
{
    let mut p: u128 = 1;
    let mut i: usize = 0;
    while i < width
        invariant
            i <= width <= 8,
            p == pow256(i as nat),
        decreases width - i,
    {
        proof {
            lemma_pow256_grows(i as nat, 7);
            lemma_pow256_values();
        }
        p = p * 256;
        i = i + 1;
    }
    p
}

/// Appends the `width` low bytes of `n` to `out`, least significant first.
pub fn encode_fixed(out: &mut Vec<u8>, n: u64, width: usize)
    ensures
        final(out)@ == old(out)@ + le_bytes(n as nat, width as nat),
{
    let mut rest: u64 = n;
    let mut i: usize = 0;
    while i < width
        invariant
            i <= width,
            old(out)@ + le_bytes(n as nat, width as nat) == out@ + le_bytes(
                rest as nat,
                (width - i) as nat,
            ),
        decreases width - i,
    {
        let ghost emitted = out@;
        let byte: u8 = (rest % 256) as u8;
        out.push(byte);
        assert(emitted + le_bytes(rest as nat, (width - i) as nat) == out@ + le_bytes(
            (rest / 256) as nat,
            (width - i - 1) as nat,
        )) by {
            assert(le_bytes(rest as nat, (width - i) as nat) == seq![byte] + le_bytes(
                (rest / 256) as nat,
                (width - i - 1) as nat,
            ));
            assert(out@ == emitted + seq![byte]);
        }
        rest = rest / 256;
        i = i + 1;
    }
}

/// Reads `width` little-endian bytes from the head of `src`.
pub fn decode_fixed(src: &mut Source<'_>, width: usize) -> (r: Result<u64, Error>)
    requires
        width <= 8,
    ensures
        match parse_fixed(old(src)@, width as nat) {
            Ok((n, count)) => r matches Ok(v) && v == n && n < pow256(width as nat) && advanced(
                old(src)@,
                final(src)@,
                count,
            ),
            Err(fault) => r matches Err(e) && e@ == fault,
        },
{
    let bytes = match src.read_exact(width) {
        Ok(bytes) => bytes,
        Err(e) => {
            return Err(e);
        },
    };
    let mut acc: u64 = 0;
    let mut i: usize = width;
    assert(bytes@.skip(width as int).len() == 0);
    while i > 0
        invariant
            i <= width <= 8,
            bytes@.len() == width,
            acc == le_value(bytes@.skip(i as int)),
            acc < pow256((width - i) as nat),
        decreases i,
    {
        proof {
            lemma_pow256_grows((width - i) as nat, 7);
            lemma_pow256_values();
            assert(bytes@.skip(i - 1).drop_first() == bytes@.skip(i as int));
            assert(pow256((width - i + 1) as nat) == 256 * pow256((width - i) as nat));
        }
        i = i - 1;
        acc = acc * 256 + bytes[i] as u64;
    }
    assert(bytes@.skip(0) == bytes@);
    Ok(acc)
}

/// The unsigned number that stands for the signed `i`.
pub fn zigzag_encode(i: i64) -> (n: u64)
    ensures
        n == zigzag(i as int),
{
    if i >= 0 {
        2 * (i as u64)
    } else {
        (-(2 * (i as i128)) - 1) as u64
    }
}

/// The signed number that the unsigned `n` stands for, where it fits `width`
/// bytes.
pub fn zigzag_decode(n: u64, width: usize) -> (r: Option<i64>)
    requires
        1 <= width <= 8,
    ensures
        match r {
            Some(i) => i == unzigzag(n as nat) && signed_fits(i as int, width as nat),
            None => !signed_fits(unzigzag(n as nat), width as nat),
        },
{
    proof {
        lemma_pow256_grows(width as nat, 8);
        lemma_pow256_grows(1, width as nat);
        lemma_pow256_values();
    }
    let limit: i128 = radix(width) as i128;
    let i: i128 = if n % 2 == 0 {
        (n / 2) as i128
    } else {
        -(((n as i128) + 1) / 2)
    };
    if -limit <= 2 * i && 2 * i < limit {
        Some(i as i64)
    } else {
        None
    }
}

/// The unsigned number with the same `width` bytes as the signed `i`.
pub fn twos_encode(i: i64, width: usize) -> (n: u64)
    requires
        1 <= width <= 8,
        signed_fits(i as int, width as nat),
    ensures
        n == twos(i as int, width as nat),
{
    proof {
        lemma_pow256_grows(width as nat, 8);
        lemma_pow256_values();
    }
    if i >= 0 {
        i as u64
    } else {
        (i as i128 + radix(width) as i128) as u64
    }
}

/// The signed number with the same `width` bytes as the unsigned `n`.
pub fn twos_decode(n: u64, width: usize) -> (i: i64)
    requires
        1 <= width <= 8,
        n < pow256(width as nat),
    ensures
        i == untwos(n as nat, width as nat),
{
    proof {
        lemma_pow256_grows(width as nat, 8);
        lemma_pow256_values();
        lemma_untwos_fits(n as nat, width as nat);
    }
    let limit: u128 = radix(width);
    if 2 * (n as u128) < limit {
        n as i64
    } else {
        (n as i128 - limit as i128) as i64
    }
}

} // verus!
