//! Variable-length integers: groups of seven bits, least significant group first,
//! every byte but the last with its high bit set.

use crate::error::{Error, Fault};
use crate::source::{advanced, Source};
use vstd::prelude::*;

verus! {

/// The groups that encode `n`.
pub open spec fn varint(n: nat) -> Seq<u8>
    decreases n,
{
    if n < 128 {
        seq![n as u8]
    } else {
        seq![(n % 128 + 128) as u8] + varint(n / 128)
    }
}

/// The unsigned number that stands for the signed `i`: `2i` for `i >= 0`,
/// `-2i - 1` below.
pub open spec fn zigzag(i: int) -> nat {
    if i >= 0 {
        (2 * i) as nat
    } else {
        (-2 * i - 1) as nat
    }
}

/// The signed number that `n` stands for.
pub open spec fn unzigzag(n: nat) -> int {
    if n % 2 == 0 {
        n as int / 2
    } else {
        -((n as int + 1) / 2)
    }
}

/// How many binary digits `n` has; none for 0.
pub open spec fn bits_needed(n: nat) -> nat
    decreases n,
{
    if n == 0 {
        0
    } else {
        1 + bits_needed(n / 2)
    }
}

/// How many groups encode `n`: its binary digits in sevens, rounded up, and one
/// group for 0.
pub open spec fn groups(n: nat) -> nat {
    if n == 0 {
        1
    } else {
        (bits_needed(n) + 6) / 7
    }
}

/// 128 to the power `k`.
pub open spec fn pow128(k: nat) -> nat
    decreases k,
{
    if k == 0 {
        1
    } else {
        128 * pow128((k - 1) as nat)
    }
}

/// What reading groups from `input` gives after `taken` groups were read: the
/// number that the remaining groups hold and how many they are. Reading stops at
/// the first byte with a clear high bit. It fails with [`Fault::TryFromInt`] once
/// ten groups were read without reaching one, and with [`Fault::Io`] where the
/// input ends first.
pub open spec fn parse_groups(input: Seq<u8>, taken: nat) -> Result<(nat, nat), Fault>
    decreases input.len(),
{
    if taken >= 10 {
        Err(Fault::TryFromInt)
    } else if input.len() == 0 {
        Err(Fault::Io)
    } else if input[0] < 128 {
        Ok((input[0] as nat, 1))
    } else {
        match parse_groups(input.skip(1), taken + 1) {
            Ok((high, count)) => Ok(((input[0] - 128 + 128 * high) as nat, count + 1)),
            Err(fault) => Err(fault),
        }
    }
}

/// What decoding a variable-length integer at the head of `input` gives: the
/// number and how many bytes it took. A number above 64 bits is
/// [`Fault::TryFromInt`].
pub open spec fn parse_varint(input: Seq<u8>) -> Result<(nat, nat), Fault> {
    match parse_groups(input, 0) {
        Ok((n, count)) => if n > u64::MAX {
            Err(Fault::TryFromInt)
        } else {
            Ok((n, count))
        },
        Err(fault) => Err(fault),
    }
}

/// A result of [`parse_groups`] for the tail of an input, as a result for the
/// whole: `low` is the number held by the `taken` groups before the tail, and
/// `scale` the weight of the tail's first group.
pub open spec fn lift_groups(tail: Result<(nat, nat), Fault>, low: nat, scale: nat, taken: nat)
    -> Result<(nat, nat), Fault> {
    match tail {
        Ok((high, count)) => Ok((low + scale * high, count + taken)),
        Err(fault) => Err(fault),
    }
}

proof fn lemma_pow128_grows(i: nat, j: nat)
    requires
        i <= j,
    ensures
        1 <= pow128(i) <= pow128(j),
    decreases j,
{
    if j == 0 {
    } else if i == j {
        lemma_pow128_grows((i - 1) as nat, (j - 1) as nat);
    } else {
        lemma_pow128_grows(i, (j - 1) as nat);
    }
}

proof fn lemma_pow128_ten()
    ensures
        pow128(10) == 0x40_0000_0000_0000_0000,
{
    reveal_with_fuel(pow128, 11);
}

proof fn lemma_bits_shift(n: nat)
    requires
        n >= 128,
    ensures
        bits_needed(n) == 7 + bits_needed(n / 128),
{
    reveal_with_fuel(bits_needed, 8);
    assert(n / 2 / 2 / 2 / 2 / 2 / 2 / 2 == n / 128);
}

proof fn lemma_bits_small(n: nat)
    requires
        0 < n < 128,
    ensures
        1 <= bits_needed(n) <= 7,
{
    reveal_with_fuel(bits_needed, 9);
}

/// The encoding of `n` has as many groups as its binary digits need, seven to a
/// group, and one group for 0.
pub proof fn lemma_varint_len(n: nat)
    ensures
        varint(n).len() == groups(n),
    decreases n,
{
    if n < 128 {
        if n > 0 {
            lemma_bits_small(n);
        }
    } else {
        lemma_varint_len(n / 128);
        lemma_bits_shift(n);
    }
}

proof fn lemma_varint_below(n: nat, k: nat)
    requires
        k >= 1,
        n < pow128(k),
    ensures
        varint(n).len() <= k,
    decreases k,
{
    reveal_with_fuel(pow128, 2);
    if n >= 128 {
        lemma_varint_below(n / 128, (k - 1) as nat);
    }
}

proof fn lemma_groups_round_trip(n: nat, rest: Seq<u8>, taken: nat)
    requires
        taken + varint(n).len() <= 10,
    ensures
        parse_groups(varint(n) + rest, taken) == Ok::<(nat, nat), Fault>((n, varint(n).len())),
    decreases n,
{
    let input = varint(n) + rest;
    if n < 128 {
        assert(input[0] == n as u8);
    } else {
        assert(input[0] == (n % 128 + 128) as u8);
        assert(input.skip(1) == varint(n / 128) + rest);
        lemma_groups_round_trip(n / 128, rest, taken + 1);
    }
}

/// Decoding what encodes `n` gives `n` back, whatever follows it, and takes exactly
/// the bytes of the encoding.
pub proof fn lemma_varint_round_trip(n: nat, rest: Seq<u8>)
    requires
        n <= u64::MAX,
    ensures
        parse_varint(varint(n) + rest) == Ok::<(nat, nat), Fault>((n, varint(n).len())),
        1 <= varint(n).len() <= 10,
{
    lemma_pow128_ten();
    lemma_varint_below(n, 10);
    lemma_groups_round_trip(n, rest, 0);
}

/// Mapping a signed number to an unsigned one and back gives the number.
pub proof fn lemma_zigzag_round_trip(i: int)
    ensures
        unzigzag(zigzag(i)) == i,
{
}

/// Appends the groups that encode `n` to `out`.
pub fn encode_varint(out: &mut Vec<u8>, n: u64)
    ensures
        final(out)@ == old(out)@ + varint(n as nat),
{
    let ghost before = out@;
    let mut rest: u64 = n;
    while rest >= 128
        invariant
            before + varint(n as nat) == out@ + varint(rest as nat),
        decreases rest,
    {
        let ghost emitted = out@;
        let group: u8 = (rest % 128 + 128) as u8;
        out.push(group);
        assert(out@ + varint((rest / 128) as nat) == emitted + varint(rest as nat)) by {
            assert(varint(rest as nat) == seq![group] + varint((rest / 128) as nat));
            assert(out@ == emitted + seq![group]);
        }
        rest = rest / 128;
    }
    let ghost emitted = out@;
    out.push(rest as u8);
    assert(out@ == emitted + varint(rest as nat));
}

/// Reads a variable-length integer from the head of `src`.
pub fn decode_varint(src: &mut Source<'_>) -> (r: Result<u64, Error>)
    ensures
        match parse_varint(old(src)@) {
            Ok((n, count)) => r matches Ok(v) && v == n && advanced(
                old(src)@,
                final(src)@,
                count,
            ),
            Err(fault) => r matches Err(e) && e@ == fault,
        },
{
    let ghost start = src@;
    let mut low: u128 = 0;
    let mut scale: u128 = 1;
    let mut taken: usize = 0;
    while taken < 10
        invariant
            start == old(src)@,
            taken <= 10,
            taken <= start.len(),
            scale == pow128(taken as nat),
            low < scale,
            src@ == start.skip(taken as int),
            parse_groups(start, 0) == lift_groups(
                parse_groups(src@, taken as nat),
                low as nat,
                scale as nat,
                taken as nat,
            ),
        decreases 10 - taken,
    {
        proof {
            lemma_pow128_grows(taken as nat, 9);
            lemma_pow128_grows(9, 10);
            lemma_pow128_ten();
            reveal_with_fuel(pow128, 2);
        }
        let ghost here = src@;
        let byte = match src.read_byte() {
            Ok(byte) => byte,
            Err(e) => {
                return Err(e);
            },
        };
        assert(scale * 128 <= 0x40_0000_0000_0000_0000) by (nonlinear_arith)
            requires
                scale <= 0x8000_0000_0000_0000,
        ;
        if byte < 128 {
            assert(scale * byte < scale * 128) by (nonlinear_arith)
                requires
                    byte < 128,
                    scale >= 1,
            ;
            let value: u128 = low + scale * (byte as u128);
            if value > u64::MAX as u128 {
                return Err(Error::TryFromInt);
            } else {
                assert(src@ == start.skip(taken + 1));
                return Ok(value as u64);
            }
        }
        assert(scale * (byte - 128) < scale * 128) by (nonlinear_arith)
            requires
                128 <= byte < 256,
                scale >= 1,
        ;
        let ghost tail = parse_groups(src@, (taken + 1) as nat);
        assert(src@ == here.skip(1));
        assert(src@ == start.skip(taken + 1));
        proof {
            if let Ok((high, count)) = tail {
                assert(scale * (byte - 128 + 128 * high) == scale * (byte - 128) + (scale * 128)
                    * high) by (nonlinear_arith);
            }
        }
        assert(scale + scale * (byte - 128) <= scale * 128) by (nonlinear_arith)
            requires
                128 <= byte < 256,
                scale >= 1,
        ;
        low = low + scale * ((byte - 128) as u128);
        scale = scale * 128;
        taken = taken + 1;
    }
    Err(Error::TryFromInt)
}

} // verus!
