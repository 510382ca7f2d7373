//! A compact binary encoding: values are written as dense byte streams, integers
//! optionally as variable-length groups, and repeated strings once, in a table that
//! precedes the payload.
//!
//! Every executable function is verified against a contract stated over the byte
//! sequences and string pools that the modules define.

use vstd::prelude::*;

pub mod account;
pub mod containers;
pub mod de;
pub mod dedup;
pub mod error;
pub mod fixed;
pub mod laws;
pub mod mode;
pub mod roundtrip;
pub mod scalars;
pub mod ser;
pub mod source;
pub mod strings;
pub mod text;
pub mod try_iter;
pub mod varint;

pub use crate::de::{BinDeserialize, BinDeserializerBase};
pub use crate::dedup::DedupContext;
pub use crate::error::Error;
pub use crate::mode::Mode;
pub use crate::ser::{BinSerialize, BinSerializer, BinSerializerBase, PrescanSerializer};
pub use crate::source::Source;

use crate::de::Input;
use crate::dedup::{parse_table, table_wire};
use crate::error::Fault;
use crate::mode::default_mode;
use crate::ser::lemma_prefix_added;
use crate::source::{advanced, lemma_advanced_twice};

verus! {

/// The stream that the value `v` becomes under `mode`: the payload, and before it,
/// where deduplication is on, the table of the strings that the payload refers to.
pub open spec fn encoding<T: BinSerialize + ?Sized>(v: T::V, mode: Mode) -> Seq<u8> {
    let payload = T::encoded(v, mode, Seq::empty());
    if mode.use_dedup {
        table_wire(payload.pool) + payload.bytes
    } else {
        payload.bytes
    }
}

/// The value at the head of the stream `bytes` under `mode` and the number of
/// bytes it takes, or the fault that reading it ends with. Where deduplication is
/// on, the table is read first, whole, and the payload is read with it.
pub open spec fn decoding<T: BinDeserialize>(bytes: Seq<u8>, mode: Mode) -> Result<(T::V, nat), Fault> {
    if mode.use_dedup {
        match parse_table(bytes) {
            Ok((table, taken)) => match T::parse(
                Input { bytes: bytes.skip(taken as int), mode, table },
            ) {
                Ok((v, more)) => Ok((v, taken + more)),
                Err(fault) => Err(fault),
            },
            Err(fault) => Err(fault),
        }
    } else {
        T::parse(Input { bytes, mode, table: Seq::empty() })
    }
}

/// The outcome `r` of writing the stream of the value `v` under `mode` behind the
/// bytes `before`, and the bytes `after` it, are what the value's type says.
/// Without a fault the whole stream was appended. With one, that fault came back;
/// the bytes that were there still stand at the head, and with deduplication on
/// nothing was added to them, since the first pass fails before the table is
/// written.
pub open spec fn stream_written<T: BinSerialize + ?Sized>(
    v: T::V,
    mode: Mode,
    r: Result<(), Error>,
    before: Seq<u8>,
    after: Seq<u8>,
) -> bool {
    match T::fault(v, mode, Seq::empty()) {
        None => r is Ok && after == before + encoding::<T>(v, mode),
        Some(fault) => (r matches Err(e) && e@ == fault) && before.is_prefix_of(after) && (
        mode.use_dedup ==> after == before),
    }
}

/// Encodes `value` under the default mode into a new buffer.
pub fn serialize<T: BinSerialize + ?Sized>(value: &T) -> (r: Result<Vec<u8>, Error>)
    ensures
        match T::fault(value.deep_view(), default_mode(), Seq::empty()) {
            None => r matches Ok(bytes) && bytes@ == encoding::<T>(value.deep_view(), default_mode()),
            Some(fault) => r matches Err(e) && e@ == fault,
        },
{
    serialize_with(value, Mode::default())
}

/// Encodes `value` under the default mode and appends the stream to `pipe`.
pub fn serialize_into<T: BinSerialize + ?Sized>(pipe: &mut Vec<u8>, value: &T) -> (r: Result<
    (),
    Error,
>)
    ensures
        stream_written::<T>(value.deep_view(), default_mode(), r, old(pipe)@, final(pipe)@),
{
    serialize_with_into(pipe, value, Mode::default())
}

/// Encodes `value` under `mode` into a new buffer.
pub fn serialize_with<T: BinSerialize + ?Sized>(value: &T, mode: Mode) -> (r: Result<
    Vec<u8>,
    Error,
>)
    ensures
        match T::fault(value.deep_view(), mode, Seq::empty()) {
            None => r matches Ok(bytes) && bytes@ == encoding::<T>(value.deep_view(), mode),
            Some(fault) => r matches Err(e) && e@ == fault,
        },
{
    let mut buf: Vec<u8> = Vec::new();
    match serialize_with_into(&mut buf, value, mode) {
        Ok(()) => {
            assert(buf@ == encoding::<T>(value.deep_view(), mode));
            Ok(buf)
        },
        Err(e) => Err(e),
    }
}

/// Encodes `value` under `mode` and appends the stream to `pipe`. Where
/// deduplication is on, a first pass over the value gathers its strings and the
/// table is written; then the payload is written in a second pass, which meets
/// the strings in the same order and so gives each the index that the table has
/// for it. A value that cannot be written fails in the first pass, before any
/// byte reaches `pipe`, and its error is returned as it is.
pub fn serialize_with_into<T: BinSerialize + ?Sized>(pipe: &mut Vec<u8>, value: &T, mode: Mode) -> (r:
    Result<(), Error>)
    ensures
        stream_written::<T>(value.deep_view(), mode, r, old(pipe)@, final(pipe)@),
{
    proof {
        lemma_prefix_added(pipe@, Seq::<u8>::empty());
        assert(pipe@ + Seq::<u8>::empty() == pipe@);
    }
    if mode.use_dedup {
        let mut ps = PrescanSerializer::new().with_mode(mode);
        match value.serialize(&mut ps) {
            Ok(()) => {},
            Err(e) => {
                return Err(e);
            },
        }
        ps.dedup().write_to(pipe);
    }
    let ghost head = pipe@;
    let mut taken: Vec<u8> = Vec::new();
    std::mem::swap(pipe, &mut taken);
    let mut serializer = BinSerializerBase::new(taken).with_mode(mode);
    let r = value.serialize(&mut serializer);
    let mut written = serializer.into_inner();
    std::mem::swap(pipe, &mut written);
    proof {
        if r is Ok {
            let payload = T::encoded(value.deep_view(), mode, Seq::empty());
            assert(pipe@ == head + payload.bytes);
            if mode.use_dedup {
                assert(old(pipe)@ + table_wire(payload.pool) + payload.bytes == old(pipe)@ + (
                table_wire(payload.pool) + payload.bytes));
            }
        }
    }
    r
}

/// Decodes a value from the head of `buf` under the default mode.
pub fn deserialize<T: BinDeserialize>(buf: &[u8]) -> (r: Result<T, Error>)
    ensures
        match decoding::<T>(buf@, default_mode()) {
            Ok((v, count)) => r matches Ok(x) && x.deep_view() == v,
            Err(fault) => r matches Err(e) && e@ == fault,
        },
{
    deserialize_with(buf, Mode::default())
}

/// Decodes a value from the head of `buf` under `mode`.
pub fn deserialize_with<T: BinDeserialize>(buf: &[u8], mode: Mode) -> (r: Result<T, Error>)
    ensures
        match decoding::<T>(buf@, mode) {
            Ok((v, count)) => r matches Ok(x) && x.deep_view() == v,
            Err(fault) => r matches Err(e) && e@ == fault,
        },
{
    let mut pipe = Source::new(buf);
    deserialize_with_from(&mut pipe, mode)
}

/// Decodes a value from `pipe` under the default mode, and leaves `pipe` behind
/// the value.
pub fn deserialize_from<T: BinDeserialize>(pipe: &mut Source<'_>) -> (r: Result<T, Error>)
    ensures
        match decoding::<T>(old(pipe)@, default_mode()) {
            Ok((v, count)) => r matches Ok(x) && x.deep_view() == v && advanced(
                old(pipe)@,
                final(pipe)@,
                count,
            ),
            Err(fault) => r matches Err(e) && e@ == fault,
        },
{
    deserialize_with_from(pipe, Mode::default())
}

/// Decodes a value from `pipe` under `mode`, and leaves `pipe` behind the value.
/// Where deduplication is on, the table is read whole before the first byte of
/// the payload.
pub fn deserialize_with_from<T: BinDeserialize>(pipe: &mut Source<'_>, mode: Mode) -> (r: Result<
    T,
    Error,
>)
    ensures
        match decoding::<T>(old(pipe)@, mode) {
            Ok((v, count)) => r matches Ok(x) && x.deep_view() == v && advanced(
                old(pipe)@,
                final(pipe)@,
                count,
            ),
            Err(fault) => r matches Err(e) && e@ == fault,
        },
{
    let context = if mode.use_dedup {
        match DedupContext::read_from(pipe) {
            Ok(context) => context,
            Err(e) => {
                return Err(e);
            },
        }
    } else {
        DedupContext::new()
    };
    let ghost here = pipe@;
    assert(old(pipe)@.skip(0) == old(pipe)@);
    let mut deserializer = BinDeserializerBase::new(*pipe, &context).with_mode(mode);
    let r = T::deserialize(&mut deserializer);
    *pipe = deserializer.into_inner();
    proof {
        if r is Ok {
            let input = Input { bytes: here, mode, table: context@ };
            let more = T::parse(input)->Ok_0.1;
            if mode.use_dedup {
                lemma_advanced_twice(old(pipe)@, here, pipe@, parse_table(old(pipe)@)->Ok_0.1, more);
            }
        }
    }
    r
}

/// Decodes a value from `pipe` under `mode` into `target`, which keeps the storage
/// it has where its type can reuse it, and leaves `pipe` behind the value. Where
/// the table cannot be read, `target` stays as it was.
pub fn deserialize_in_place<T: BinDeserialize>(target: &mut T, pipe: &mut Source<'_>, mode: Mode) -> (r:
    Result<(), Error>)
    ensures
        match decoding::<T>(old(pipe)@, mode) {
            Ok((v, count)) => r is Ok && final(target).deep_view() == v && advanced(
                old(pipe)@,
                final(pipe)@,
                count,
            ),
            Err(fault) => r matches Err(e) && e@ == fault,
        },
        mode.use_dedup && parse_table(old(pipe)@) is Err ==> *final(target) == *old(target),
{
    let context = if mode.use_dedup {
        match DedupContext::read_from(pipe) {
            Ok(context) => context,
            Err(e) => {
                return Err(e);
            },
        }
    } else {
        DedupContext::new()
    };
    let ghost here = pipe@;
    assert(old(pipe)@.skip(0) == old(pipe)@);
    let mut deserializer = BinDeserializerBase::new(*pipe, &context).with_mode(mode);
    let r = target.deserialize_in_place(&mut deserializer);
    *pipe = deserializer.into_inner();
    proof {
        if r is Ok {
            let input = Input { bytes: here, mode, table: context@ };
            let more = T::parse(input)->Ok_0.1;
            if mode.use_dedup {
                lemma_advanced_twice(old(pipe)@, here, pipe@, parse_table(old(pipe)@)->Ok_0.1, more);
            }
        }
    }
    r
}

} // verus!
