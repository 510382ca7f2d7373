//! Reading gives back what was written: the law that ties the two sides together,
//! and its instances for the operations.

use crate::de::{
    parse_bool, parse_len, parse_signed, parse_string, parse_unsigned, parse_variant,
    BinDeserialize, Input,
};
use crate::dedup::{lemma_interned, position, Pool};
use crate::error::Fault;
use crate::fixed::{
    lemma_fixed_round_trip, lemma_pow256_grows, lemma_pow256_values, lemma_twos_round_trip, pow256,
    signed_fits, twos,
};
use crate::mode::Mode;
use crate::ser::{bool_wire, len_wire, signed_wire, str_encoded, unsigned_wire, BinSerialize};
use crate::text::lemma_str_round_trip;
use crate::varint::{lemma_varint_round_trip, lemma_zigzag_round_trip, zigzag};
use vstd::prelude::*;

verus! {

/// A type whose values read back as they were written.
pub trait RoundTrip: BinSerialize + BinDeserialize {
    /// Take what the value becomes under `mode` after the strings of `pool`, put
    /// any bytes `rest` behind it, and read it under the same mode with a table
    /// that begins with the pool that writing left. Then reading gives the value
    /// back and takes exactly the bytes that were written. The table and the
    /// buffer are ones that the machine can hold.
    proof fn lemma_round_trip(&self, mode: Mode, pool: Pool, table: Pool, rest: Seq<u8>)
        requires
            Self::encoded(self.deep_view(), mode, pool).pool.is_prefix_of(table),
            table.len() <= usize::MAX,
            (Self::encoded(self.deep_view(), mode, pool).bytes + rest).len() <= usize::MAX,
        ensures
            Self::parse(
                Input { bytes: Self::encoded(self.deep_view(), mode, pool).bytes + rest, mode, table },
            ) == Ok::<(Self::V, nat), Fault>(
                (self.deep_view(), Self::encoded(self.deep_view(), mode, pool).bytes.len()),
            ),
    ;
}

/// A length reads back as it was written.
pub proof fn lemma_len_round_trip(n: nat, rest: Seq<u8>)
    requires
        n <= usize::MAX,
    ensures
        parse_len(len_wire(n) + rest) == Ok::<(nat, nat), Fault>((n, len_wire(n).len())),
{
    lemma_varint_round_trip(n, rest);
}

/// Reading a discriminant selects the variant at the position that was written.
pub proof fn lemma_variant_round_trip(index: nat, variants: nat, rest: Seq<u8>)
    requires
        index < variants <= usize::MAX,
    ensures
        parse_variant(len_wire(index) + rest, variants) == Ok::<(nat, nat), Fault>(
            (index, len_wire(index).len()),
        ),
{
    lemma_varint_round_trip(index, rest);
}

/// A boolean reads back as it was written.
pub proof fn lemma_bool_round_trip(b: bool, rest: Seq<u8>)
    ensures
        parse_bool(bool_wire(b) + rest) == Ok::<(bool, nat), Fault>((b, bool_wire(b).len())),
{
    assert((bool_wire(b) + rest)[0] == bool_wire(b)[0]);
}

/// An unsigned integer that fits its width reads back as it was written, in either
/// form.
pub proof fn lemma_unsigned_round_trip(n: nat, width: nat, mode: Mode, rest: Seq<u8>)
    requires
        width <= 8,
        n < pow256(width),
    ensures
        parse_unsigned(unsigned_wire(n, width, mode) + rest, width, mode) == Ok::<
            (nat, nat),
            Fault,
        >((n, unsigned_wire(n, width, mode).len())),
{
    lemma_pow256_grows(width, 8);
    lemma_pow256_values();
    if mode.fixed_size_use_varint {
        lemma_varint_round_trip(n, rest);
    } else {
        lemma_fixed_round_trip(n, width, rest);
    }
}

/// A signed integer that fits its width reads back as it was written, in either
/// form.
pub proof fn lemma_signed_round_trip(i: int, width: nat, mode: Mode, rest: Seq<u8>)
    requires
        1 <= width <= 8,
        signed_fits(i, width),
    ensures
        parse_signed(signed_wire(i, width, mode) + rest, width, mode) == Ok::<(int, nat), Fault>(
            (i, signed_wire(i, width, mode).len()),
        ),
{
    lemma_pow256_grows(width, 8);
    lemma_pow256_values();
    if mode.fixed_size_use_varint {
        lemma_zigzag_round_trip(i);
        lemma_varint_round_trip(zigzag(i), rest);
    } else {
        lemma_twos_round_trip(i, width);
        lemma_fixed_round_trip(twos(i, width), width, rest);
    }
}

/// A string reads back as it was written: inline, or through a table that begins
/// with the pool that writing left.
pub proof fn lemma_string_round_trip(
    s: Seq<char>,
    mode: Mode,
    pool: Pool,
    table: Pool,
    rest: Seq<u8>,
)
    requires
        str_encoded(s, mode, pool).pool.is_prefix_of(table),
        table.len() <= usize::MAX,
        (str_encoded(s, mode, pool).bytes + rest).len() <= usize::MAX,
    ensures
        parse_string(Input { bytes: str_encoded(s, mode, pool).bytes + rest, mode, table }) == Ok::<
            (Seq<char>, nat),
            Fault,
        >((s, str_encoded(s, mode, pool).bytes.len())),
{
    if mode.use_dedup {
        lemma_interned(pool, s);
        lemma_varint_round_trip(position(pool, s), rest);
    } else {
        lemma_str_round_trip(s, rest);
    }
}

} // verus!
