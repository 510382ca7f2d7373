//! The read side: the deserializer, what a decodable type states, and the
//! operations that every decodable type is read with.

use crate::dedup::{DedupContext, Pool};
use crate::error::{Error, Fault};
use crate::fixed::{
    decode_fixed, lemma_untwos_fits, parse_fixed, pow256, radix, signed_fits, twos_decode, untwos,
    zigzag_decode,
};
use crate::mode::{default_mode, Mode};
use crate::ser::FieldRule;
use crate::source::{lemma_advanced_twice, Source};
use crate::text::{decode_str, parse_str};
use crate::varint::{decode_varint, parse_varint, unzigzag};
use vstd::prelude::*;

verus! {

/// The state of a deserializer in contracts: the bytes still to read, the mode,
/// and the string table.
#[verifier::ext_equal]
pub struct Input {
    pub bytes: Seq<u8>,
    pub mode: Mode,
    pub table: Pool,
}

impl Input {
    /// This state without its first `count` bytes.
    pub open spec fn skip(self, count: nat) -> Input {
        Input { bytes: self.bytes.skip(count as int), mode: self.mode, table: self.table }
    }

    /// This state under another mode.
    pub open spec fn with_mode(self, mode: Mode) -> Input {
        Input { bytes: self.bytes, mode, table: self.table }
    }
}

/// What reading a value gives in contracts: the value and the number of bytes it
/// took, or the fault that reading ended with.
pub type Parsed<V> = Result<(V, nat), Fault>;

/// Reading took `before` to `after` by taking `count` bytes off the input.
pub open spec fn took(before: Input, after: Input, count: nat) -> bool {
    count <= before.bytes.len() && after == before.skip(count)
}

/// The outcome `r` of reading a value, and the state `after` it, are what
/// `expected` says: the value read and the bytes taken, or the fault.
pub open spec fn decoded<T: DeepView>(
    expected: Result<(T::V, nat), Fault>,
    r: Result<T, Error>,
    before: Input,
    after: Input,
) -> bool {
    match expected {
        Ok((v, count)) => r matches Ok(x) && x.deep_view() == v && took(before, after, count),
        Err(fault) => r matches Err(e) && e@ == fault,
    }
}

/// As [`decoded`], for a value that is read into `target` in place.
pub open spec fn decoded_in_place<T: DeepView>(
    expected: Result<(T::V, nat), Fault>,
    r: Result<(), Error>,
    target: T,
    before: Input,
    after: Input,
) -> bool {
    match expected {
        Ok((v, count)) => r is Ok && target.deep_view() == v && took(before, after, count),
        Err(fault) => r matches Err(e) && e@ == fault,
    }
}

/// Taking `first` bytes and then `second` bytes takes `first + second` bytes.
pub proof fn lemma_took_twice(before: Input, between: Input, after: Input, first: nat, second: nat)
    requires
        took(before, between, first),
        took(between, after, second),
    ensures
        took(before, after, first + second),
{
    lemma_advanced_twice(before.bytes, between.bytes, after.bytes, first, second);
}

/// What reading a length gives. A length that this machine cannot address is
/// [`Fault::TryFromInt`].
pub open spec fn parse_len(input: Seq<u8>) -> Result<(nat, nat), Fault> {
    match parse_varint(input) {
        Ok((n, count)) => if n > usize::MAX {
            Err(Fault::TryFromInt)
        } else {
            Ok((n, count))
        },
        Err(fault) => Err(fault),
    }
}

/// The message of the error for a discriminant that names no variant.
pub open spec fn unknown_variant() -> Seq<char> {
    "unknown enum variant"@
}

/// What reading the discriminant of an enum with `variants` variants gives. A
/// discriminant that names no variant is a custom fault.
pub open spec fn parse_variant(input: Seq<u8>, variants: nat) -> Result<(nat, nat), Fault> {
    match parse_varint(input) {
        Ok((n, count)) => if n >= variants {
            Err(Fault::Custom(unknown_variant()))
        } else {
            Ok((n, count))
        },
        Err(fault) => Err(fault),
    }
}

/// What reading a boolean gives: false for a zero byte, true for any other.
pub open spec fn parse_bool(input: Seq<u8>) -> Result<(bool, nat), Fault> {
    if input.len() == 0 {
        Err(Fault::Io)
    } else {
        Ok((input[0] != 0, 1))
    }
}

/// What reading an unsigned integer of `width` bytes gives. Groups that hold a
/// number too large for the width are [`Fault::TryFromInt`].
pub open spec fn parse_unsigned(input: Seq<u8>, width: nat, mode: Mode) -> Result<
    (nat, nat),
    Fault,
> {
    if mode.fixed_size_use_varint {
        match parse_varint(input) {
            Ok((n, count)) => if n >= pow256(width) {
                Err(Fault::TryFromInt)
            } else {
                Ok((n, count))
            },
            Err(fault) => Err(fault),
        }
    } else {
        parse_fixed(input, width)
    }
}

/// What reading a signed integer of `width` bytes gives. Groups that hold a number
/// outside the width are [`Fault::TryFromInt`].
pub open spec fn parse_signed(input: Seq<u8>, width: nat, mode: Mode) -> Result<
    (int, nat),
    Fault,
> {
    if mode.fixed_size_use_varint {
        match parse_varint(input) {
            Ok((n, count)) => if signed_fits(unzigzag(n), width) {
                Ok((unzigzag(n), count))
            } else {
                Err(Fault::TryFromInt)
            },
            Err(fault) => Err(fault),
        }
    } else {
        match parse_fixed(input, width) {
            Ok((n, count)) => Ok((untwos(n, width), count)),
            Err(fault) => Err(fault),
        }
    }
}

/// What reading a string gives. With deduplication on, the string is the table's
/// entry at the index read, and an index at or beyond the table's length is
/// [`Fault::StrOutOfRange`]; with deduplication off, the string stands inline.
pub open spec fn parse_string(input: Input) -> Result<(Seq<char>, nat), Fault> {
    if input.mode.use_dedup {
        match parse_varint(input.bytes) {
            Ok((n, count)) => if n > usize::MAX {
                Err(Fault::TryFromInt)
            } else if n >= input.table.len() {
                Err(Fault::StrOutOfRange(n))
            } else {
                Ok((input.table[n as int], count))
            },
            Err(fault) => Err(fault),
        }
    } else {
        parse_str(input.bytes)
    }
}

/// The deserializer: a source, the mode, and the string table that was read from
/// the head of the stream before any byte of the payload.
pub struct BinDeserializerBase<'a, 'c> {
    pipe: Source<'a>,
    mode: Mode,
    context: &'c DedupContext,
}

impl<'a, 'c> View for BinDeserializerBase<'a, 'c> {
    type V = Input;

    closed spec fn view(&self) -> Input {
        Input { bytes: self.pipe@, mode: self.mode, table: self.context@ }
    }
}

impl<'a, 'c> BinDeserializerBase<'a, 'c> {
    /// A deserializer that reads from `pipe` under the default mode and resolves
    /// string indices in `context`.
    pub fn new(pipe: Source<'a>, context: &'c DedupContext) -> (d: Self)
        ensures
            d@ == (Input { bytes: pipe@, mode: default_mode(), table: context@ }),
    {
        BinDeserializerBase { pipe, mode: Mode::default(), context }
    }

    /// This deserializer under `mode`.
    pub fn with_mode(self, mode: Mode) -> (d: Self)
        ensures
            d@ == self@.with_mode(mode),
    {
        BinDeserializerBase { pipe: self.pipe, mode, context: self.context }
    }

    /// The source, at the position that reading has reached.
    pub fn into_inner(self) -> (pipe: Source<'a>)
        ensures
            pipe@ == self@.bytes,
    {
        self.pipe
    }

    /// The active mode.
    pub fn mode(&self) -> (mode: Mode)
        ensures
            mode == self@.mode,
    {
        self.mode
    }

    /// Replaces the active mode.
    pub fn set_mode(&mut self, mode: Mode)
        ensures
            final(self)@ == old(self)@.with_mode(mode),
    {
        self.mode = mode;
    }

    /// Reads one byte.
    pub fn read_byte(&mut self) -> (r: Result<u8, Error>)
        ensures
            match r {
                Ok(byte) => byte == old(self)@.bytes[0] && took(old(self)@, final(self)@, 1),
                Err(e) => old(self)@.bytes.len() == 0 && e@ == Fault::Io,
            },
    {
        self.pipe.read_byte()
    }
}

/// A type that can be read. `parse` says, over the type's deep view, which value
/// stands at the head of an input and how many bytes it takes, or why there is
/// none.
pub trait BinDeserialize: DeepView + Sized {
    /// The value at the head of `input` and the number of bytes it takes, or the
    /// fault that reading it ends with.
    spec fn parse(input: Input) -> Parsed<Self::V>;

    /// Reads a value from `d`.
    fn deserialize(d: &mut BinDeserializerBase<'_, '_>) -> (r: Result<Self, Error>)
        ensures
            decoded::<Self>(Self::parse(old(d)@), r, old(d)@, final(d)@),
    ;

    /// Reads a value from `d` into `self`, so that a container can keep the
    /// storage it has.
    fn deserialize_in_place(&mut self, d: &mut BinDeserializerBase<'_, '_>) -> (r: Result<(), Error>)
        ensures
            decoded_in_place::<Self>(Self::parse(old(d)@), r, *final(self), old(d)@, final(d)@),
    {
        match Self::deserialize(d) {
            Ok(v) => {
                *self = v;
                Ok(())
            },
            Err(e) => Err(e),
        }
    }
}

/// The outcome `r` of reading a field under `rule`, and the state `after` it,
/// are what the rule says: a plain field is what its type reads, a field exempt
/// from deduplication is what its type reads with deduplication off, and a
/// skipped field takes nothing from the input and is its type's default.
pub open spec fn field_decoded<T: BinDeserialize + Default>(
    rule: FieldRule,
    r: Result<T, Error>,
    before: Input,
    after: Input,
) -> bool {
    match rule {
        FieldRule::Plain => decoded::<T>(T::parse(before), r, before, after),
        FieldRule::NoDedup => decoded::<T>(
            T::parse(before.with_mode(before.mode.inline_strings())),
            r,
            before,
            after,
        ),
        FieldRule::Skip => after == before && (r matches Ok(v) && call_ensures(T::default, (), v)),
    }
}

/// Reads a variable-length integer.
pub fn read_varint(d: &mut BinDeserializerBase<'_, '_>) -> (r: Result<u64, Error>)
    ensures
        match parse_varint(old(d)@.bytes) {
            Ok((n, count)) => r matches Ok(v) && v == n && took(old(d)@, final(d)@, count),
            Err(fault) => r matches Err(e) && e@ == fault,
        },
{
    decode_varint(&mut d.pipe)
}

/// Reads the length of a string or a container.
pub fn read_len(d: &mut BinDeserializerBase<'_, '_>) -> (r: Result<usize, Error>)
    ensures
        match parse_len(old(d)@.bytes) {
            Ok((n, count)) => r matches Ok(v) && v == n && took(old(d)@, final(d)@, count),
            Err(fault) => r matches Err(e) && e@ == fault,
        },
{
    match decode_varint(&mut d.pipe) {
        Ok(n) => if n > usize::MAX as u64 {
            Err(Error::TryFromInt)
        } else {
            Ok(n as usize)
        },
        Err(e) => Err(e),
    }
}

/// Reads the discriminant of an enum with `variants` variants: the position of
/// the variant that follows, counted from 0.
pub fn read_variant(d: &mut BinDeserializerBase<'_, '_>, variants: usize) -> (r: Result<usize, Error>)
    ensures
        match parse_variant(old(d)@.bytes, variants as nat) {
            Ok((n, count)) => r matches Ok(v) && v == n && took(old(d)@, final(d)@, count),
            Err(fault) => r matches Err(e) && e@ == fault,
        },
{
    match decode_varint(&mut d.pipe) {
        Ok(n) => if n >= variants as u64 {
            Err(Error::message("unknown enum variant"))
        } else {
            Ok(n as usize)
        },
        Err(e) => Err(e),
    }
}

/// Reads a boolean.
pub fn read_bool(d: &mut BinDeserializerBase<'_, '_>) -> (r: Result<bool, Error>)
    ensures
        match parse_bool(old(d)@.bytes) {
            Ok((b, count)) => r matches Ok(v) && v == b && took(old(d)@, final(d)@, count),
            Err(fault) => r matches Err(e) && e@ == fault,
        },
{
    match d.pipe.read_byte() {
        Ok(byte) => Ok(byte != 0),
        Err(e) => Err(e),
    }
}

/// Reads an unsigned integer of `width` bytes.
pub fn read_unsigned(d: &mut BinDeserializerBase<'_, '_>, width: usize) -> (r: Result<u64, Error>)
    requires
        1 <= width <= 8,
    ensures
        match parse_unsigned(old(d)@.bytes, width as nat, old(d)@.mode) {
            Ok((n, count)) => r matches Ok(v) && v == n && n < pow256(width as nat) && took(
                old(d)@,
                final(d)@,
                count,
            ),
            Err(fault) => r matches Err(e) && e@ == fault,
        },
{
    if d.mode.fixed_size_use_varint {
        match decode_varint(&mut d.pipe) {
            Ok(n) => if n as u128 >= radix(width) {
                Err(Error::TryFromInt)
            } else {
                Ok(n)
            },
            Err(e) => Err(e),
        }
    } else {
        decode_fixed(&mut d.pipe, width)
    }
}

/// Reads a signed integer of `width` bytes.
pub fn read_signed(d: &mut BinDeserializerBase<'_, '_>, width: usize) -> (r: Result<i64, Error>)
    requires
        1 <= width <= 8,
    ensures
        match parse_signed(old(d)@.bytes, width as nat, old(d)@.mode) {
            Ok((i, count)) => r matches Ok(v) && v == i && signed_fits(i, width as nat) && took(
                old(d)@,
                final(d)@,
                count,
            ),
            Err(fault) => r matches Err(e) && e@ == fault,
        },
{
    if d.mode.fixed_size_use_varint {
        match decode_varint(&mut d.pipe) {
            Ok(n) => match zigzag_decode(n, width) {
                Some(i) => Ok(i),
                None => Err(Error::TryFromInt),
            },
            Err(e) => Err(e),
        }
    } else {
        match decode_fixed(&mut d.pipe, width) {
            Ok(n) => {
                proof {
                    lemma_untwos_fits(n as nat, width as nat);
                }
                Ok(twos_decode(n, width))
            },
            Err(e) => Err(e),
        }
    }
}

/// Reads a string: the table's entry at the index read where deduplication is on,
/// an inline string where it is off.
pub fn read_str(d: &mut BinDeserializerBase<'_, '_>) -> (r: Result<String, Error>)
    ensures
        match parse_string(old(d)@) {
            Ok((s, count)) => r matches Ok(v) && v@ == s && took(old(d)@, final(d)@, count),
            Err(fault) => r matches Err(e) && e@ == fault,
        },
{
    if d.mode.use_dedup {
        let n = match decode_varint(&mut d.pipe) {
            Ok(n) => n,
            Err(e) => {
                return Err(e);
            },
        };
        if n > usize::MAX as u64 {
            return Err(Error::TryFromInt);
        }
        match d.context.lookup(n as usize) {
            Ok(s) => Ok(s.to_owned()),
            Err(e) => Err(e),
        }
    } else {
        decode_str(&mut d.pipe)
    }
}

/// Reads a field of a struct under its rule. A skipped field takes nothing from
/// the input and is its type's default.
pub fn read_field<T: BinDeserialize + Default>(d: &mut BinDeserializerBase<'_, '_>, rule: FieldRule) -> (r:
    Result<T, Error>)
    ensures
        field_decoded::<T>(rule, r, old(d)@, final(d)@),
{
    match rule {
        FieldRule::Plain => T::deserialize(d),
        FieldRule::NoDedup => {
            let mode = d.mode;
            d.mode = mode.with_dedup(false);
            match T::deserialize(d) {
                Ok(v) => {
                    d.mode = mode;
                    Ok(v)
                },
                Err(e) => Err(e),
            }
        },
        FieldRule::Skip => Ok(T::default()),
    }
}

} // verus!
