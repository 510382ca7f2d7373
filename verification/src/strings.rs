//! Strings as encodable and decodable types.

use crate::account::{index_len, inline_len, interned_all, DedupStrings};
use crate::de::{parse_string, read_str, BinDeserialize, BinDeserializerBase, Input};
use crate::dedup::{interned, lemma_interned, position, Pool};
use crate::error::{Error, Fault};
use crate::mode::Mode;
use crate::roundtrip::{lemma_string_round_trip, RoundTrip};
use crate::ser::{str_encoded, write_str, BinSerialize, BinSerializer, Encoded};
use crate::text::str_wire;
use crate::varint::varint;
use vstd::prelude::*;

verus! {

/// One string alone: interning it is interning its one occurrence.
proof fn lemma_one_string(s: Seq<char>, pool: Pool)
    ensures
        interned_all(pool, seq![s]) == interned(pool, s),
        inline_len(seq![s]) == str_wire(s).len(),
        index_len(pool, seq![s]) == varint(position(pool, s)).len(),
{
    let one = seq![s];
    assert(one[0] == s);
    assert(one.drop_first().len() == 0);
    assert(interned_all(pool, one) == interned_all(interned(pool, s), one.drop_first()));
    assert(inline_len(one) == str_wire(s).len() + inline_len(one.drop_first()));
    assert(index_len(pool, one) == varint(position(pool, s)).len() + index_len(
        interned(pool, s),
        one.drop_first(),
    ));
}

impl BinSerialize for str {
    open spec fn encoded(v: Seq<char>, mode: Mode, pool: Pool) -> Encoded {
        str_encoded(v, mode, pool)
    }

    open spec fn fault(v: Seq<char>, mode: Mode, pool: Pool) -> Option<Fault> {
        None
    }

    fn serialize<S: BinSerializer>(&self, s: &mut S) -> (r: Result<(), Error>) {
        write_str(s, self);
        Ok(())
    }

    proof fn lemma_pool(&self, mode: Mode, pool: Pool) {
        lemma_interned(pool, self@);
    }
}

impl DedupStrings for str {
    open spec fn strings(v: Seq<char>) -> Seq<Seq<char>> {
        seq![v]
    }

    proof fn lemma_strings(&self, mode: Mode, pool: Pool, other: Pool) {
        lemma_one_string(self@, pool);
    }
}

impl BinSerialize for String {
    open spec fn encoded(v: Seq<char>, mode: Mode, pool: Pool) -> Encoded {
        str_encoded(v, mode, pool)
    }

    open spec fn fault(v: Seq<char>, mode: Mode, pool: Pool) -> Option<Fault> {
        None
    }

    fn serialize<S: BinSerializer>(&self, s: &mut S) -> (r: Result<(), Error>) {
        write_str(s, self.as_str());
        Ok(())
    }

    proof fn lemma_pool(&self, mode: Mode, pool: Pool) {
        lemma_interned(pool, self@);
    }
}

impl BinDeserialize for String {
    open spec fn parse(input: Input) -> Result<(Seq<char>, nat), Fault> {
        parse_string(input)
    }

    fn deserialize(d: &mut BinDeserializerBase<'_, '_>) -> (r: Result<Self, Error>) {
        read_str(d)
    }
}

impl DedupStrings for String {
    open spec fn strings(v: Seq<char>) -> Seq<Seq<char>> {
        seq![v]
    }

    proof fn lemma_strings(&self, mode: Mode, pool: Pool, other: Pool) {
        lemma_one_string(self@, pool);
    }
}

impl RoundTrip for String {
    proof fn lemma_round_trip(&self, mode: Mode, pool: Pool, table: Pool, rest: Seq<u8>) {
        lemma_string_round_trip(self@, mode, pool, table, rest);
    }
}

} // verus!
