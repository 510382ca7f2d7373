//! What holds of every stream: the laws that relate encoding and decoding.

use crate::de::{parse_string, parse_variant, Input};
use crate::dedup::{
    entries_wire, interned, lemma_entries_round_trip, lemma_interned, lemma_table_round_trip,
    position, table_wire, Pool,
};
use crate::error::Fault;
use crate::mode::{dedup_mode, default_mode, Mode};
use crate::roundtrip::{lemma_variant_round_trip, RoundTrip};
use crate::ser::{field_encoded, len_wire, str_encoded, BinSerialize, FieldRule};
use crate::text::str_wire;
use crate::varint::{lemma_varint_round_trip, varint};
use crate::account::{index_len, inline_len, interned_all, DedupStrings};
use crate::{decoding, encoding};
use vstd::prelude::*;
use vstd::utf8::encode_utf8;

verus! {

/// Decoding the stream of a value gives the value back, under every mode, and
/// takes exactly the stream, whatever follows it. The stream is one that the
/// machine can hold.
pub proof fn lemma_stream_round_trip<T: RoundTrip>(value: &T, mode: Mode, rest: Seq<u8>)
    requires
        (encoding::<T>(value.deep_view(), mode) + rest).len() <= usize::MAX,
    ensures
        decoding::<T>(encoding::<T>(value.deep_view(), mode) + rest, mode) == Ok::<
            (T::V, nat),
            Fault,
        >((value.deep_view(), encoding::<T>(value.deep_view(), mode).len())),
{
    let empty = Seq::<Seq<char>>::empty();
    let payload = T::encoded(value.deep_view(), mode, empty);
    value.lemma_pool(mode, empty);
    if mode.use_dedup {
        let table = table_wire(payload.pool);
        let stream = table + payload.bytes + rest;
        assert(stream == table + (payload.bytes + rest));
        assert(stream == varint(payload.pool.len()) + (entries_wire(payload.pool) + (payload.bytes
            + rest)));
        lemma_entries_round_trip(payload.pool, payload.bytes + rest);
        lemma_table_round_trip(payload.pool, payload.bytes + rest);
        assert(stream.skip(table.len() as int) == payload.bytes + rest);
        value.lemma_round_trip(mode, empty, payload.pool, rest);
    } else {
        value.lemma_round_trip(mode, empty, empty, rest);
    }
}

/// A pair of two occurrences of one string of at least four bytes has a shorter
/// stream with deduplication than without: the table holds the string once, and
/// the payload is two indices.
pub proof fn lemma_dedup_shorter(s: Seq<char>)
    requires
        encode_utf8(s).len() >= 4,
    ensures
        encoding::<(String, String)>((s, s), dedup_mode()) == table_wire(seq![s]) + (varint(0)
            + varint(0)),
        encoding::<(String, String)>((s, s), default_mode()) == str_wire(s) + str_wire(s),
        encoding::<(String, String)>((s, s), dedup_mode()).len() < encoding::<(String, String)>(
            (s, s),
            default_mode(),
        ).len(),
{
    let empty = Seq::<Seq<char>>::empty();
    let one = seq![s];
    assert(position(empty, s) == 0);
    assert(interned(empty, s) == one);
    assert(position(one, s) == 0);
    assert(interned(one, s) == one);
    assert(one.drop_first() == empty);
    assert(entries_wire(one) == str_wire(s) + entries_wire(empty));
    assert(entries_wire(empty) == Seq::<u8>::empty());
    assert(varint(0).len() == 1);
    assert(varint(1).len() == 1);
}

/// What `count` occurrences of one string come to: one entry in the pool, one
/// byte of index each, and the whole string each time when they stand inline.
proof fn lemma_occurrences(s: Seq<char>, count: nat, pool: Pool)
    requires
        pool.len() == 0 || pool == seq![s],
    ensures
        count > 0 ==> interned_all(pool, Seq::new(count, |i: int| s)) == seq![s],
        inline_len(Seq::new(count, |i: int| s)) == count * str_wire(s).len(),
        index_len(pool, Seq::new(count, |i: int| s)) == count,
    decreases count,
{
    let all = Seq::new(count, |i: int| s);
    if count > 0 {
        let one = seq![s];
        let others = Seq::new((count - 1) as nat, |i: int| s);
        assert(all.drop_first() == others);
        assert(all[0] == s);
        assert(position(Seq::<Seq<char>>::empty(), s) == 0);
        assert(pool.len() == 0 ==> interned(pool, s) == one);
        assert(one.drop_first().len() == 0);
        assert(position(one, s) == 0);
        assert(interned(one, s) == one);
        assert(varint(0).len() == 1);
        lemma_occurrences(s, (count - 1) as nat, interned(pool, s));
        assert(count * str_wire(s).len() == (count - 1) * str_wire(s).len() + str_wire(s).len())
            by (nonlinear_arith)
            requires
                count > 0,
        ;
    }
}

/// A value whose strings are two or more occurrences of one string of at least
/// four bytes has a shorter stream with deduplication than without, whatever
/// else the value holds.
pub proof fn lemma_dedup_shorter_for<T: DedupStrings + ?Sized>(
    value: &T,
    s: Seq<char>,
    count: nat,
)
    requires
        count >= 2,
        encode_utf8(s).len() >= 4,
        T::strings(value.deep_view()) == Seq::new(count, |i: int| s),
    ensures
        encoding::<T>(value.deep_view(), dedup_mode()).len() < encoding::<T>(
            value.deep_view(),
            default_mode(),
        ).len(),
{
    let empty = Seq::<Seq<char>>::empty();
    let one = seq![s];
    let width = str_wire(s).len();
    value.lemma_strings(dedup_mode(), empty, empty);
    lemma_occurrences(s, count, empty);
    assert(dedup_mode().inline_strings() == default_mode());
    assert(one.drop_first() == empty);
    assert(entries_wire(one) == str_wire(s) + entries_wire(empty));
    assert(entries_wire(empty) == Seq::<u8>::empty());
    assert(varint(1).len() == 1);
    assert(varint(encode_utf8(s).len()).len() >= 1);
    assert(count * width >= count + width + 2) by (nonlinear_arith)
        requires
            count >= 2,
            width >= 5,
    ;
}

/// Reading a variant gives back both its discriminant and its payload: the
/// discriminant read is the position that was written, and the payload that
/// follows it reads back as it was written.
pub proof fn lemma_variant_keeps_tag_and_payload<T: RoundTrip>(
    index: nat,
    variants: nat,
    payload: &T,
    mode: Mode,
    pool: Pool,
    table: Pool,
    rest: Seq<u8>,
)
    requires
        index < variants <= usize::MAX,
        T::encoded(payload.deep_view(), mode, pool).pool.is_prefix_of(table),
        table.len() <= usize::MAX,
        (len_wire(index) + T::encoded(payload.deep_view(), mode, pool).bytes + rest).len()
            <= usize::MAX,
    ensures
        parse_variant(
            len_wire(index) + T::encoded(payload.deep_view(), mode, pool).bytes + rest,
            variants,
        ) == Ok::<(nat, nat), Fault>((index, len_wire(index).len())),
        T::parse(
            Input {
                bytes: (len_wire(index) + T::encoded(payload.deep_view(), mode, pool).bytes
                    + rest).skip(len_wire(index).len() as int),
                mode,
                table,
            },
        ) == Ok::<(T::V, nat), Fault>(
            (payload.deep_view(), T::encoded(payload.deep_view(), mode, pool).bytes.len()),
        ),
{
    let value = T::encoded(payload.deep_view(), mode, pool);
    let stream = len_wire(index) + value.bytes + rest;
    assert(stream == len_wire(index) + (value.bytes + rest));
    lemma_variant_round_trip(index, variants, value.bytes + rest);
    assert(stream.skip(len_wire(index).len() as int) == value.bytes + rest);
    payload.lemma_round_trip(mode, pool, table, rest);
}

/// The index written for a string is an index of that string in every table that
/// begins with the pool that writing left: it is below the table's count.
pub proof fn lemma_index_bound(s: Seq<char>, mode: Mode, pool: Pool, table: Pool)
    requires
        mode.use_dedup,
        str_encoded(s, mode, pool).pool.is_prefix_of(table),
    ensures
        str_encoded(s, mode, pool).bytes == varint(position(pool, s)),
        position(pool, s) < table.len(),
        table[position(pool, s) as int] == s,
{
    lemma_interned(pool, s);
}

/// Reading a string through an index at or beyond the table's count fails with
/// the out-of-range fault, and gives no string.
pub proof fn lemma_index_out_of_range(index: nat, mode: Mode, table: Pool, rest: Seq<u8>)
    requires
        mode.use_dedup,
        table.len() <= index <= usize::MAX,
    ensures
        parse_string(Input { bytes: varint(index) + rest, mode, table }) == Err::<
            (Seq<char>, nat),
            Fault,
        >(Fault::StrOutOfRange(index)),
{
    lemma_varint_round_trip(index, rest);
}

/// A skipped field adds no byte and leaves the pool as it is, whatever its value.
pub proof fn lemma_skip_adds_nothing<T: BinSerialize + ?Sized>(v: T::V, mode: Mode, pool: Pool)
    ensures
        field_encoded::<T>(v, FieldRule::Skip, mode, pool).bytes.len() == 0,
        field_encoded::<T>(v, FieldRule::Skip, mode, pool).pool == pool,
{
}

/// A field that is written reads back as it was written, under the rule it was
/// written with: a plain field under the mode of the stream, and a field exempt
/// from deduplication with deduplication off.
pub proof fn lemma_field_round_trip<T: RoundTrip>(
    value: &T,
    rule: FieldRule,
    mode: Mode,
    pool: Pool,
    table: Pool,
    rest: Seq<u8>,
)
    requires
        rule != FieldRule::Skip,
        field_encoded::<T>(value.deep_view(), rule, mode, pool).pool.is_prefix_of(table),
        table.len() <= usize::MAX,
        (field_encoded::<T>(value.deep_view(), rule, mode, pool).bytes + rest).len() <= usize::MAX,
    ensures
        T::parse(
            Input {
                bytes: field_encoded::<T>(value.deep_view(), rule, mode, pool).bytes + rest,
                mode: if rule == FieldRule::NoDedup {
                    mode.inline_strings()
                } else {
                    mode
                },
                table,
            },
        ) == Ok::<(T::V, nat), Fault>(
            (value.deep_view(), field_encoded::<T>(value.deep_view(), rule, mode, pool).bytes.len()),
        ),
{
    if rule == FieldRule::NoDedup {
        value.lemma_round_trip(mode.inline_strings(), pool, table, rest);
    } else {
        value.lemma_round_trip(mode, pool, table, rest);
    }
}

/// With deduplication on, a field exempt from it has the bytes that it has under
/// the default mode, and leaves the pool as it is.
pub proof fn lemma_no_dedup_opts_out<T: BinSerialize + ?Sized>(value: &T, pool: Pool)
    ensures
        field_encoded::<T>(value.deep_view(), FieldRule::NoDedup, dedup_mode(), pool).bytes
            == T::encoded(value.deep_view(), default_mode(), pool).bytes,
        field_encoded::<T>(value.deep_view(), FieldRule::NoDedup, dedup_mode(), pool).pool == pool,
{
    value.lemma_pool(default_mode(), pool);
}

} // verus!
