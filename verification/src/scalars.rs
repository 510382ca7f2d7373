//! Booleans and integers as encodable and decodable types. Every integer is
//! written at the width of its type, or as variable-length groups where the mode
//! asks for them; `usize` and `isize` count as 64 bits wide.

use crate::account::DedupStrings;
use crate::de::{
    parse_bool, parse_signed, parse_unsigned, read_bool, read_signed, read_unsigned,
    BinDeserialize, BinDeserializerBase, Input,
};
use crate::dedup::Pool;
use crate::error::{Error, Fault};
use crate::fixed::lemma_pow256_values;
use crate::mode::Mode;
use crate::roundtrip::{
    lemma_bool_round_trip, lemma_signed_round_trip, lemma_unsigned_round_trip, RoundTrip,
};
use crate::ser::{
    bool_wire, signed_wire, unsigned_wire, write_bool, write_signed, write_unsigned, BinSerialize,
    BinSerializer, Encoded,
};
use vstd::prelude::*;

verus! {

impl BinSerialize for bool {
    open spec fn encoded(v: bool, mode: Mode, pool: Pool) -> Encoded {
        Encoded { bytes: bool_wire(v), pool }
    }

    open spec fn fault(v: bool, mode: Mode, pool: Pool) -> Option<Fault> {
        None
    }

    fn serialize<S: BinSerializer>(&self, s: &mut S) -> (r: Result<(), Error>) {
        write_bool(s, *self);
        Ok(())
    }

    proof fn lemma_pool(&self, mode: Mode, pool: Pool) {
    }
}

impl BinDeserialize for bool {
    open spec fn parse(input: Input) -> Result<(bool, nat), Fault> {
        parse_bool(input.bytes)
    }

    fn deserialize(d: &mut BinDeserializerBase<'_, '_>) -> (r: Result<Self, Error>) {
        read_bool(d)
    }
}

impl DedupStrings for bool {
    open spec fn strings(v: bool) -> Seq<Seq<char>> {
        Seq::empty()
    }

    proof fn lemma_strings(&self, mode: Mode, pool: Pool, other: Pool) {
    }
}

impl RoundTrip for bool {
    proof fn lemma_round_trip(&self, mode: Mode, pool: Pool, table: Pool, rest: Seq<u8>) {
        lemma_bool_round_trip(*self, rest);
    }
}

impl BinSerialize for u8 {
    open spec fn encoded(v: u8, mode: Mode, pool: Pool) -> Encoded {
        Encoded { bytes: unsigned_wire(v as nat, 1, mode), pool }
    }

    open spec fn fault(v: u8, mode: Mode, pool: Pool) -> Option<Fault> {
        None
    }

    fn serialize<S: BinSerializer>(&self, s: &mut S) -> (r: Result<(), Error>) {
        write_unsigned(s, *self as u64, 1);
        Ok(())
    }

    proof fn lemma_pool(&self, mode: Mode, pool: Pool) {
    }
}

impl BinDeserialize for u8 {
    open spec fn parse(input: Input) -> Result<(u8, nat), Fault> {
        match parse_unsigned(input.bytes, 1, input.mode) {
            Ok((n, count)) => Ok((n as u8, count)),
            Err(fault) => Err(fault),
        }
    }

    fn deserialize(d: &mut BinDeserializerBase<'_, '_>) -> (r: Result<Self, Error>) {
        proof {
            lemma_pow256_values();
        }
        match read_unsigned(d, 1) {
            Ok(n) => Ok(n as u8),
            Err(e) => Err(e),
        }
    }
}

impl DedupStrings for u8 {
    open spec fn strings(v: u8) -> Seq<Seq<char>> {
        Seq::empty()
    }

    proof fn lemma_strings(&self, mode: Mode, pool: Pool, other: Pool) {
    }
}

impl RoundTrip for u8 {
    proof fn lemma_round_trip(&self, mode: Mode, pool: Pool, table: Pool, rest: Seq<u8>) {
        lemma_pow256_values();
        lemma_unsigned_round_trip(*self as nat, 1, mode, rest);
    }
}

impl BinSerialize for u16 {
    open spec fn encoded(v: u16, mode: Mode, pool: Pool) -> Encoded {
        Encoded { bytes: unsigned_wire(v as nat, 2, mode), pool }
    }

    open spec fn fault(v: u16, mode: Mode, pool: Pool) -> Option<Fault> {
        None
    }

    fn serialize<S: BinSerializer>(&self, s: &mut S) -> (r: Result<(), Error>) {
        write_unsigned(s, *self as u64, 2);
        Ok(())
    }

    proof fn lemma_pool(&self, mode: Mode, pool: Pool) {
    }
}

impl BinDeserialize for u16 {
    open spec fn parse(input: Input) -> Result<(u16, nat), Fault> {
        match parse_unsigned(input.bytes, 2, input.mode) {
            Ok((n, count)) => Ok((n as u16, count)),
            Err(fault) => Err(fault),
        }
    }

    fn deserialize(d: &mut BinDeserializerBase<'_, '_>) -> (r: Result<Self, Error>) {
        proof {
            lemma_pow256_values();
        }
        match read_unsigned(d, 2) {
            Ok(n) => Ok(n as u16),
            Err(e) => Err(e),
        }
    }
}

impl DedupStrings for u16 {
    open spec fn strings(v: u16) -> Seq<Seq<char>> {
        Seq::empty()
    }

    proof fn lemma_strings(&self, mode: Mode, pool: Pool, other: Pool) {
    }
}

impl RoundTrip for u16 {
    proof fn lemma_round_trip(&self, mode: Mode, pool: Pool, table: Pool, rest: Seq<u8>) {
        lemma_pow256_values();
        lemma_unsigned_round_trip(*self as nat, 2, mode, rest);
    }
}

impl BinSerialize for u32 {
    open spec fn encoded(v: u32, mode: Mode, pool: Pool) -> Encoded {
        Encoded { bytes: unsigned_wire(v as nat, 4, mode), pool }
    }

    open spec fn fault(v: u32, mode: Mode, pool: Pool) -> Option<Fault> {
        None
    }

    fn serialize<S: BinSerializer>(&self, s: &mut S) -> (r: Result<(), Error>) {
        write_unsigned(s, *self as u64, 4);
        Ok(())
    }

    proof fn lemma_pool(&self, mode: Mode, pool: Pool) {
    }
}

impl BinDeserialize for u32 {
    open spec fn parse(input: Input) -> Result<(u32, nat), Fault> {
        match parse_unsigned(input.bytes, 4, input.mode) {
            Ok((n, count)) => Ok((n as u32, count)),
            Err(fault) => Err(fault),
        }
    }

    fn deserialize(d: &mut BinDeserializerBase<'_, '_>) -> (r: Result<Self, Error>) {
        proof {
            lemma_pow256_values();
        }
        match read_unsigned(d, 4) {
            Ok(n) => Ok(n as u32),
            Err(e) => Err(e),
        }
    }
}

impl DedupStrings for u32 {
    open spec fn strings(v: u32) -> Seq<Seq<char>> {
        Seq::empty()
    }

    proof fn lemma_strings(&self, mode: Mode, pool: Pool, other: Pool) {
    }
}

impl RoundTrip for u32 {
    proof fn lemma_round_trip(&self, mode: Mode, pool: Pool, table: Pool, rest: Seq<u8>) {
        lemma_pow256_values();
        lemma_unsigned_round_trip(*self as nat, 4, mode, rest);
    }
}

impl BinSerialize for u64 {
    open spec fn encoded(v: u64, mode: Mode, pool: Pool) -> Encoded {
        Encoded { bytes: unsigned_wire(v as nat, 8, mode), pool }
    }

    open spec fn fault(v: u64, mode: Mode, pool: Pool) -> Option<Fault> {
        None
    }

    fn serialize<S: BinSerializer>(&self, s: &mut S) -> (r: Result<(), Error>) {
        write_unsigned(s, *self as u64, 8);
        Ok(())
    }

    proof fn lemma_pool(&self, mode: Mode, pool: Pool) {
    }
}

impl BinDeserialize for u64 {
    open spec fn parse(input: Input) -> Result<(u64, nat), Fault> {
        match parse_unsigned(input.bytes, 8, input.mode) {
            Ok((n, count)) => Ok((n as u64, count)),
            Err(fault) => Err(fault),
        }
    }

    fn deserialize(d: &mut BinDeserializerBase<'_, '_>) -> (r: Result<Self, Error>) {
        proof {
            lemma_pow256_values();
        }
        match read_unsigned(d, 8) {
            Ok(n) => Ok(n as u64),
            Err(e) => Err(e),
        }
    }
}

impl DedupStrings for u64 {
    open spec fn strings(v: u64) -> Seq<Seq<char>> {
        Seq::empty()
    }

    proof fn lemma_strings(&self, mode: Mode, pool: Pool, other: Pool) {
    }
}

impl RoundTrip for u64 {
    proof fn lemma_round_trip(&self, mode: Mode, pool: Pool, table: Pool, rest: Seq<u8>) {
        lemma_pow256_values();
        lemma_unsigned_round_trip(*self as nat, 8, mode, rest);
    }
}

/// A `usize` is written as 64 bits. One that this machine cannot hold is
/// [`Fault::TryFromInt`] when it is read.
impl BinSerialize for usize {
    open spec fn encoded(v: usize, mode: Mode, pool: Pool) -> Encoded {
        Encoded { bytes: unsigned_wire(v as nat, 8, mode), pool }
    }

    open spec fn fault(v: usize, mode: Mode, pool: Pool) -> Option<Fault> {
        None
    }

    fn serialize<S: BinSerializer>(&self, s: &mut S) -> (r: Result<(), Error>) {
        write_unsigned(s, *self as u64, 8);
        Ok(())
    }

    proof fn lemma_pool(&self, mode: Mode, pool: Pool) {
    }
}

impl BinDeserialize for usize {
    open spec fn parse(input: Input) -> Result<(usize, nat), Fault> {
        match parse_unsigned(input.bytes, 8, input.mode) {
            Ok((n, count)) => if n > usize::MAX {
                Err(Fault::TryFromInt)
            } else {
                Ok((n as usize, count))
            },
            Err(fault) => Err(fault),
        }
    }

    fn deserialize(d: &mut BinDeserializerBase<'_, '_>) -> (r: Result<Self, Error>) {
        proof {
            lemma_pow256_values();
        }
        match read_unsigned(d, 8) {
            Ok(n) => if n > usize::MAX as u64 {
                Err(Error::TryFromInt)
            } else {
                Ok(n as usize)
            },
            Err(e) => Err(e),
        }
    }
}

impl DedupStrings for usize {
    open spec fn strings(v: usize) -> Seq<Seq<char>> {
        Seq::empty()
    }

    proof fn lemma_strings(&self, mode: Mode, pool: Pool, other: Pool) {
    }
}

impl RoundTrip for usize {
    proof fn lemma_round_trip(&self, mode: Mode, pool: Pool, table: Pool, rest: Seq<u8>) {
        lemma_pow256_values();
        lemma_unsigned_round_trip(*self as nat, 8, mode, rest);
    }
}

impl BinSerialize for i8 {
    open spec fn encoded(v: i8, mode: Mode, pool: Pool) -> Encoded {
        Encoded { bytes: signed_wire(v as int, 1, mode), pool }
    }

    open spec fn fault(v: i8, mode: Mode, pool: Pool) -> Option<Fault> {
        None
    }

    fn serialize<S: BinSerializer>(&self, s: &mut S) -> (r: Result<(), Error>) {
        proof {
            lemma_pow256_values();
        }
        write_signed(s, *self as i64, 1);
        Ok(())
    }

    proof fn lemma_pool(&self, mode: Mode, pool: Pool) {
    }
}

impl BinDeserialize for i8 {
    open spec fn parse(input: Input) -> Result<(i8, nat), Fault> {
        match parse_signed(input.bytes, 1, input.mode) {
            Ok((i, count)) => Ok((i as i8, count)),
            Err(fault) => Err(fault),
        }
    }

    fn deserialize(d: &mut BinDeserializerBase<'_, '_>) -> (r: Result<Self, Error>) {
        proof {
            lemma_pow256_values();
        }
        match read_signed(d, 1) {
            Ok(i) => Ok(i as i8),
            Err(e) => Err(e),
        }
    }
}

impl DedupStrings for i8 {
    open spec fn strings(v: i8) -> Seq<Seq<char>> {
        Seq::empty()
    }

    proof fn lemma_strings(&self, mode: Mode, pool: Pool, other: Pool) {
    }
}

impl RoundTrip for i8 {
    proof fn lemma_round_trip(&self, mode: Mode, pool: Pool, table: Pool, rest: Seq<u8>) {
        lemma_pow256_values();
        lemma_signed_round_trip(*self as int, 1, mode, rest);
    }
}

impl BinSerialize for i16 {
    open spec fn encoded(v: i16, mode: Mode, pool: Pool) -> Encoded {
        Encoded { bytes: signed_wire(v as int, 2, mode), pool }
    }

    open spec fn fault(v: i16, mode: Mode, pool: Pool) -> Option<Fault> {
        None
    }

    fn serialize<S: BinSerializer>(&self, s: &mut S) -> (r: Result<(), Error>) {
        proof {
            lemma_pow256_values();
        }
        write_signed(s, *self as i64, 2);
        Ok(())
    }

    proof fn lemma_pool(&self, mode: Mode, pool: Pool) {
    }
}

impl BinDeserialize for i16 {
    open spec fn parse(input: Input) -> Result<(i16, nat), Fault> {
        match parse_signed(input.bytes, 2, input.mode) {
            Ok((i, count)) => Ok((i as i16, count)),
            Err(fault) => Err(fault),
        }
    }

    fn deserialize(d: &mut BinDeserializerBase<'_, '_>) -> (r: Result<Self, Error>) {
        proof {
            lemma_pow256_values();
        }
        match read_signed(d, 2) {
            Ok(i) => Ok(i as i16),
            Err(e) => Err(e),
        }
    }
}

impl DedupStrings for i16 {
    open spec fn strings(v: i16) -> Seq<Seq<char>> {
        Seq::empty()
    }

    proof fn lemma_strings(&self, mode: Mode, pool: Pool, other: Pool) {
    }
}

impl RoundTrip for i16 {
    proof fn lemma_round_trip(&self, mode: Mode, pool: Pool, table: Pool, rest: Seq<u8>) {
        lemma_pow256_values();
        lemma_signed_round_trip(*self as int, 2, mode, rest);
    }
}

impl BinSerialize for i32 {
    open spec fn encoded(v: i32, mode: Mode, pool: Pool) -> Encoded {
        Encoded { bytes: signed_wire(v as int, 4, mode), pool }
    }

    open spec fn fault(v: i32, mode: Mode, pool: Pool) -> Option<Fault> {
        None
    }

    fn serialize<S: BinSerializer>(&self, s: &mut S) -> (r: Result<(), Error>) {
        proof {
            lemma_pow256_values();
        }
        write_signed(s, *self as i64, 4);
        Ok(())
    }

    proof fn lemma_pool(&self, mode: Mode, pool: Pool) {
    }
}

impl BinDeserialize for i32 {
    open spec fn parse(input: Input) -> Result<(i32, nat), Fault> {
        match parse_signed(input.bytes, 4, input.mode) {
            Ok((i, count)) => Ok((i as i32, count)),
            Err(fault) => Err(fault),
        }
    }

    fn deserialize(d: &mut BinDeserializerBase<'_, '_>) -> (r: Result<Self, Error>) {
        proof {
            lemma_pow256_values();
        }
        match read_signed(d, 4) {
            Ok(i) => Ok(i as i32),
            Err(e) => Err(e),
        }
    }
}

impl DedupStrings for i32 {
    open spec fn strings(v: i32) -> Seq<Seq<char>> {
        Seq::empty()
    }

    proof fn lemma_strings(&self, mode: Mode, pool: Pool, other: Pool) {
    }
}

impl RoundTrip for i32 {
    proof fn lemma_round_trip(&self, mode: Mode, pool: Pool, table: Pool, rest: Seq<u8>) {
        lemma_pow256_values();
        lemma_signed_round_trip(*self as int, 4, mode, rest);
    }
}

impl BinSerialize for i64 {
    open spec fn encoded(v: i64, mode: Mode, pool: Pool) -> Encoded {
        Encoded { bytes: signed_wire(v as int, 8, mode), pool }
    }

    open spec fn fault(v: i64, mode: Mode, pool: Pool) -> Option<Fault> {
        None
    }

    fn serialize<S: BinSerializer>(&self, s: &mut S) -> (r: Result<(), Error>) {
        proof {
            lemma_pow256_values();
        }
        write_signed(s, *self as i64, 8);
        Ok(())
    }

    proof fn lemma_pool(&self, mode: Mode, pool: Pool) {
    }
}

impl BinDeserialize for i64 {
    open spec fn parse(input: Input) -> Result<(i64, nat), Fault> {
        match parse_signed(input.bytes, 8, input.mode) {
            Ok((i, count)) => Ok((i as i64, count)),
            Err(fault) => Err(fault),
        }
    }

    fn deserialize(d: &mut BinDeserializerBase<'_, '_>) -> (r: Result<Self, Error>) {
        proof {
            lemma_pow256_values();
        }
        match read_signed(d, 8) {
            Ok(i) => Ok(i as i64),
            Err(e) => Err(e),
        }
    }
}

impl DedupStrings for i64 {
    open spec fn strings(v: i64) -> Seq<Seq<char>> {
        Seq::empty()
    }

    proof fn lemma_strings(&self, mode: Mode, pool: Pool, other: Pool) {
    }
}

impl RoundTrip for i64 {
    proof fn lemma_round_trip(&self, mode: Mode, pool: Pool, table: Pool, rest: Seq<u8>) {
        lemma_pow256_values();
        lemma_signed_round_trip(*self as int, 8, mode, rest);
    }
}

/// An `isize` is written as 64 bits. One that this machine cannot hold is
/// [`Fault::TryFromInt`] when it is read.
impl BinSerialize for isize {
    open spec fn encoded(v: isize, mode: Mode, pool: Pool) -> Encoded {
        Encoded { bytes: signed_wire(v as int, 8, mode), pool }
    }

    open spec fn fault(v: isize, mode: Mode, pool: Pool) -> Option<Fault> {
        None
    }

    fn serialize<S: BinSerializer>(&self, s: &mut S) -> (r: Result<(), Error>) {
        proof {
            lemma_pow256_values();
        }
        write_signed(s, *self as i64, 8);
        Ok(())
    }

    proof fn lemma_pool(&self, mode: Mode, pool: Pool) {
    }
}

impl BinDeserialize for isize {
    open spec fn parse(input: Input) -> Result<(isize, nat), Fault> {
        match parse_signed(input.bytes, 8, input.mode) {
            Ok((i, count)) => if i < isize::MIN || i > isize::MAX {
                Err(Fault::TryFromInt)
            } else {
                Ok((i as isize, count))
            },
            Err(fault) => Err(fault),
        }
    }

    fn deserialize(d: &mut BinDeserializerBase<'_, '_>) -> (r: Result<Self, Error>) {
        proof {
            lemma_pow256_values();
        }
        match read_signed(d, 8) {
            Ok(i) => if i < isize::MIN as i64 || i > isize::MAX as i64 {
                Err(Error::TryFromInt)
            } else {
                Ok(i as isize)
            },
            Err(e) => Err(e),
        }
    }
}

impl DedupStrings for isize {
    open spec fn strings(v: isize) -> Seq<Seq<char>> {
        Seq::empty()
    }

    proof fn lemma_strings(&self, mode: Mode, pool: Pool, other: Pool) {
    }
}

impl RoundTrip for isize {
    proof fn lemma_round_trip(&self, mode: Mode, pool: Pool, table: Pool, rest: Seq<u8>) {
        lemma_pow256_values();
        lemma_signed_round_trip(*self as int, 8, mode, rest);
    }
}

} // verus!
