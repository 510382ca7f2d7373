//! The write side: what a serializer offers, the two serializers, and the
//! operations that every encodable type is written with.

use crate::dedup::{interned, position, DedupContext, Pool};
use crate::error::{Error, Fault};
use crate::fixed::{encode_fixed, le_bytes, signed_fits, twos, twos_encode, zigzag_encode};
use crate::mode::{default_mode, Mode};
use crate::text::{append_bytes, str_wire};
use crate::varint::{encode_varint, varint, zigzag};
use vstd::prelude::*;

verus! {

/// The state of a serializer in contracts: the bytes written so far, the mode, and
/// the strings interned so far.
#[verifier::ext_equal]
pub struct Stream {
    pub bytes: Seq<u8>,
    pub mode: Mode,
    pub pool: Pool,
}

/// What writing one value adds: its bytes, and the pool after it.
#[verifier::ext_equal]
pub struct Encoded {
    pub bytes: Seq<u8>,
    pub pool: Pool,
}

impl Stream {
    /// The state of a serializer that has written nothing.
    pub open spec fn start(mode: Mode) -> Stream {
        Stream { bytes: Seq::empty(), mode, pool: Seq::empty() }
    }

    /// This state after `bytes` were written.
    pub open spec fn emit(self, bytes: Seq<u8>) -> Stream {
        Stream { bytes: self.bytes + bytes, mode: self.mode, pool: self.pool }
    }

    /// This state under another mode.
    pub open spec fn with_mode(self, mode: Mode) -> Stream {
        Stream { bytes: self.bytes, mode, pool: self.pool }
    }

    /// This state after `s` was interned.
    pub open spec fn intern(self, s: Seq<char>) -> Stream {
        Stream { bytes: self.bytes, mode: self.mode, pool: interned(self.pool, s) }
    }

    /// This state after a value was written.
    pub open spec fn accept(self, value: Encoded) -> Stream {
        Stream { bytes: self.bytes + value.bytes, mode: self.mode, pool: value.pool }
    }
}

/// The outcome `r` of writing a value, and the state `after` it, are what `fault`
/// and `value` say. Without a fault the value was written whole. With one, that
/// fault came back, and what was written before the call still stands at the head
/// of the bytes.
pub open spec fn written(
    fault: Option<Fault>,
    value: Encoded,
    r: Result<(), Error>,
    before: Stream,
    after: Stream,
) -> bool {
    match fault {
        None => r is Ok && after == before.accept(value),
        Some(f) => (r matches Err(e) && e@ == f) && before.bytes.is_prefix_of(after.bytes),
    }
}

/// Bytes stay at the head when more are written behind them.
pub proof fn lemma_prefix_added<V>(head: Seq<V>, more: Seq<V>)
    ensures
        head.is_prefix_of(head + more),
{
    assert(head =~= (head + more).subrange(0, head.len() as int));
}

/// A head of a head is a head.
pub proof fn lemma_prefix_chain<V>(a: Seq<V>, b: Seq<V>, c: Seq<V>)
    requires
        a.is_prefix_of(b),
        b.is_prefix_of(c),
    ensures
        a.is_prefix_of(c),
{
    assert forall|i: int| 0 <= i < a.len() implies a[i] == c[i] by {
        assert(a[i] == b.subrange(0, a.len() as int)[i]);
        assert(b[i] == c.subrange(0, b.len() as int)[i]);
    }
    assert(a =~= c.subrange(0, a.len() as int));
}

/// What every serializer offers. The operations below and the encodable types are
/// written against this trait alone, so one traversal of a value serves every
/// serializer.
pub trait BinSerializer: View<V = Stream> {
    /// The active mode.
    fn mode(&self) -> (mode: Mode)
        ensures
            mode == self@.mode,
    ;

    /// Replaces the active mode.
    fn set_mode(&mut self, mode: Mode)
        ensures
            final(self)@ == old(self)@.with_mode(mode),
    ;

    /// Writes one byte.
    fn write_byte(&mut self, byte: u8)
        ensures
            final(self)@ == old(self)@.emit(seq![byte]),
    ;

    /// Writes a run of bytes.
    fn write_all(&mut self, bytes: &[u8])
        ensures
            final(self)@ == old(self)@.emit(bytes@),
    ;

    /// Interns a string and returns its index in the pool.
    fn intern(&mut self, s: &str) -> (index: usize)
        ensures
            index == position(old(self)@.pool, s@),
            final(self)@ == old(self)@.intern(s@),
    ;
}

/// A type that can be written. Its contract is stated over the type's deep view:
/// `fault` says whether writing a value fails and with what, and `encoded` says
/// which bytes a value becomes under a mode and a pool, and which pool it leaves.
pub trait BinSerialize: DeepView {
    /// The bytes that the value `v` becomes when it is written under `mode` with
    /// the strings of `pool` interned before it, and the pool after it.
    spec fn encoded(v: Self::V, mode: Mode, pool: Pool) -> Encoded;

    /// The fault that writing the value `v` under `mode` after the strings of
    /// `pool` ends with, if it fails. The types of this library never fail; a
    /// type that reports an error of its own says here when.
    spec fn fault(v: Self::V, mode: Mode, pool: Pool) -> Option<Fault>;

    /// Writes the value to `s`. A failure ends the writing where it occurs.
    fn serialize<S: BinSerializer>(&self, s: &mut S) -> (r: Result<(), Error>)
        ensures
            written(
                Self::fault(self.deep_view(), old(s)@.mode, old(s)@.pool),
                Self::encoded(self.deep_view(), old(s)@.mode, old(s)@.pool),
                r,
                old(s)@,
                final(s)@,
            ),
    ;

    /// Writing a value only adds to the pool, adds no string twice, and leaves the
    /// pool alone where deduplication is off.
    proof fn lemma_pool(&self, mode: Mode, pool: Pool)
        ensures
            pool.is_prefix_of(Self::encoded(self.deep_view(), mode, pool).pool),
            pool.no_duplicates() ==> Self::encoded(self.deep_view(), mode, pool).pool.no_duplicates(),
            !mode.use_dedup ==> Self::encoded(self.deep_view(), mode, pool).pool == pool,
    ;
}

/// How a field of a struct takes part in its encoding.
#[derive(Clone, Copy, Debug, PartialEq, Eq)]
pub enum FieldRule {
    /// The field is written like any value.
    Plain,
    /// The field is written with deduplication off: its strings stand inline.
    NoDedup,
    /// The field is not written, and reads as its type's default.
    Skip,
}

/// The bytes of a length, a discriminant or an index: a variable-length integer.
pub open spec fn len_wire(n: nat) -> Seq<u8> {
    varint(n)
}

/// The byte of a boolean: all bits set for true, none for false.
pub open spec fn bool_wire(b: bool) -> Seq<u8> {
    seq![if b { 0xFFu8 } else { 0u8 }]
}

/// The bytes of an unsigned integer of `width` bytes: little-endian at that width,
/// or variable-length groups where the mode asks for them.
pub open spec fn unsigned_wire(n: nat, width: nat, mode: Mode) -> Seq<u8> {
    if mode.fixed_size_use_varint {
        varint(n)
    } else {
        le_bytes(n, width)
    }
}

/// The bytes of a signed integer of `width` bytes: two's complement, little-endian
/// at that width, or the groups of its zig-zag image where the mode asks for them.
pub open spec fn signed_wire(i: int, width: nat, mode: Mode) -> Seq<u8> {
    if mode.fixed_size_use_varint {
        varint(zigzag(i))
    } else {
        le_bytes(twos(i, width), width)
    }
}

/// What a string becomes: with deduplication on, its index in the pool, which it
/// joins if it is new; with deduplication off, the string inline.
pub open spec fn str_encoded(s: Seq<char>, mode: Mode, pool: Pool) -> Encoded {
    if mode.use_dedup {
        Encoded { bytes: varint(position(pool, s)), pool: interned(pool, s) }
    } else {
        Encoded { bytes: str_wire(s), pool }
    }
}

/// What a field becomes under its rule: nothing where it is skipped, and what its
/// value becomes, with deduplication off where the rule says so.
pub open spec fn field_encoded<T: BinSerialize + ?Sized>(
    v: T::V,
    rule: FieldRule,
    mode: Mode,
    pool: Pool,
) -> Encoded {
    match rule {
        FieldRule::Plain => T::encoded(v, mode, pool),
        FieldRule::NoDedup => T::encoded(v, mode.inline_strings(), pool),
        FieldRule::Skip => Encoded { bytes: Seq::empty(), pool },
    }
}

/// The fault that writing a field under `rule` ends with, if it fails: none for
/// a skipped field, and otherwise that of its value, with deduplication off where
/// the rule says so.
pub open spec fn field_fault<T: BinSerialize + ?Sized>(
    v: T::V,
    rule: FieldRule,
    mode: Mode,
    pool: Pool,
) -> Option<Fault> {
    match rule {
        FieldRule::Plain => T::fault(v, mode, pool),
        FieldRule::NoDedup => T::fault(v, mode.inline_strings(), pool),
        FieldRule::Skip => None,
    }
}

/// Writes a variable-length integer.
pub fn write_varint<S: BinSerializer>(s: &mut S, n: u64)
    ensures
        final(s)@ == old(s)@.emit(varint(n as nat)),
{
    let mut groups: Vec<u8> = Vec::new();
    encode_varint(&mut groups, n);
    assert(groups@ == varint(n as nat));
    s.write_all(groups.as_slice());
}

/// Writes the length of a string or a container.
pub fn write_len<S: BinSerializer>(s: &mut S, len: usize)
    ensures
        final(s)@ == old(s)@.emit(len_wire(len as nat)),
{
    write_varint(s, len as u64);
}

/// Writes the discriminant of an enum's variant: its position among the variants,
/// counted from 0.
pub fn write_variant<S: BinSerializer>(s: &mut S, index: usize)
    ensures
        final(s)@ == old(s)@.emit(len_wire(index as nat)),
{
    write_varint(s, index as u64);
}

/// Writes a boolean.
pub fn write_bool<S: BinSerializer>(s: &mut S, b: bool)
    ensures
        final(s)@ == old(s)@.emit(bool_wire(b)),
{
    s.write_byte(if b { 0xFF } else { 0 });
}

/// Writes an unsigned integer of `width` bytes.
pub fn write_unsigned<S: BinSerializer>(s: &mut S, n: u64, width: usize)
    ensures
        final(s)@ == old(s)@.emit(unsigned_wire(n as nat, width as nat, old(s)@.mode)),
{
    if s.mode().fixed_size_use_varint {
        write_varint(s, n);
    } else {
        let mut bytes: Vec<u8> = Vec::new();
        encode_fixed(&mut bytes, n, width);
        assert(bytes@ == le_bytes(n as nat, width as nat));
        s.write_all(bytes.as_slice());
    }
}

/// Writes a signed integer of `width` bytes.
pub fn write_signed<S: BinSerializer>(s: &mut S, i: i64, width: usize)
    requires
        1 <= width <= 8,
        signed_fits(i as int, width as nat),
    ensures
        final(s)@ == old(s)@.emit(signed_wire(i as int, width as nat, old(s)@.mode)),
{
    if s.mode().fixed_size_use_varint {
        write_varint(s, zigzag_encode(i));
    } else {
        let mut bytes: Vec<u8> = Vec::new();
        encode_fixed(&mut bytes, twos_encode(i, width), width);
        assert(bytes@ == le_bytes(twos(i as int, width as nat), width as nat));
        s.write_all(bytes.as_slice());
    }
}

/// Writes a string: its index in the pool where deduplication is on, the string
/// inline where it is off.
pub fn write_str<S: BinSerializer>(s: &mut S, v: &str)
    ensures
        final(s)@ == old(s)@.accept(str_encoded(v@, old(s)@.mode, old(s)@.pool)),
{
    if s.mode().use_dedup {
        let index = s.intern(v);
        write_varint(s, index as u64);
    } else {
        let bytes = v.as_bytes();
        write_varint(s, bytes.len() as u64);
        s.write_all(bytes);
        assert(s@.bytes == old(s)@.bytes + str_wire(v@));
    }
}

/// Writes a field of a struct under its rule. A skipped field is not visited.
pub fn write_field<T: BinSerialize + ?Sized, S: BinSerializer>(
    s: &mut S,
    value: &T,
    rule: FieldRule,
) -> (r: Result<(), Error>)
    ensures
        written(
            field_fault::<T>(value.deep_view(), rule, old(s)@.mode, old(s)@.pool),
            field_encoded::<T>(value.deep_view(), rule, old(s)@.mode, old(s)@.pool),
            r,
            old(s)@,
            final(s)@,
        ),
{
    match rule {
        FieldRule::Plain => value.serialize(s),
        FieldRule::NoDedup => {
            let mode = s.mode();
            s.set_mode(mode.with_dedup(false));
            match value.serialize(s) {
                Ok(()) => {
                    s.set_mode(mode);
                    Ok(())
                },
                Err(e) => Err(e),
            }
        },
        FieldRule::Skip => {
            assert(s@.bytes + Seq::<u8>::empty() == s@.bytes);
            Ok(())
        },
    }
}

/// The serializer of the first pass over a value. It writes nothing and interns
/// every string, so that the table is complete before the first byte of the
/// payload is written. Its view keeps account of the bytes that the same
/// traversal will write.
pub struct PrescanSerializer {
    mode: Mode,
    dedup: DedupContext,
    measured: Ghost<Seq<u8>>,
}

impl View for PrescanSerializer {
    type V = Stream;

    closed spec fn view(&self) -> Stream {
        Stream { bytes: self.measured@, mode: self.mode, pool: self.dedup@ }
    }
}

impl PrescanSerializer {
    /// A prescan under the default mode, with an empty pool.
    pub fn new() -> (s: Self)
        ensures
            s@ == Stream::start(default_mode()),
    {
        PrescanSerializer {
            mode: Mode::default(),
            dedup: DedupContext::new(),
            measured: Ghost(Seq::empty()),
        }
    }

    /// This prescan under `mode`.
    pub fn with_mode(self, mode: Mode) -> (s: Self)
        ensures
            s@ == self@.with_mode(mode),
    {
        PrescanSerializer { mode, dedup: self.dedup, measured: self.measured }
    }

    /// The pool gathered so far.
    pub fn dedup(&self) -> (ctx: &DedupContext)
        ensures
            ctx@ == self@.pool,
    {
        &self.dedup
    }
}

impl BinSerializer for PrescanSerializer {
    fn mode(&self) -> (mode: Mode) {
        self.mode
    }

    fn set_mode(&mut self, mode: Mode) {
        self.mode = mode;
    }

    fn write_byte(&mut self, byte: u8) {
        self.measured = Ghost(self.measured@ + seq![byte]);
    }

    fn write_all(&mut self, bytes: &[u8]) {
        self.measured = Ghost(self.measured@ + bytes@);
    }

    fn intern(&mut self, s: &str) -> (index: usize) {
        self.dedup.intern(s)
    }
}

/// The serializer that writes the payload into a buffer. With deduplication on it
/// interns the strings in the order in which it meets them, which is the order of
/// the prescan over the same value, and writes each as its index.
pub struct BinSerializerBase {
    pipe: Vec<u8>,
    mode: Mode,
    dedup: DedupContext,
}

impl View for BinSerializerBase {
    type V = Stream;

    closed spec fn view(&self) -> Stream {
        Stream { bytes: self.pipe@, mode: self.mode, pool: self.dedup@ }
    }
}

impl BinSerializerBase {
    /// A serializer that appends to `pipe`, under the default mode, with an empty
    /// pool.
    pub fn new(pipe: Vec<u8>) -> (s: Self)
        ensures
            s@ == (Stream { bytes: pipe@, mode: default_mode(), pool: Seq::empty() }),
    {
        BinSerializerBase { pipe, mode: Mode::default(), dedup: DedupContext::new() }
    }

    /// This serializer under `mode`.
    pub fn with_mode(self, mode: Mode) -> (s: Self)
        ensures
            s@ == self@.with_mode(mode),
    {
        BinSerializerBase { pipe: self.pipe, mode, dedup: self.dedup }
    }

    /// The buffer, with everything that was written.
    pub fn into_inner(self) -> (pipe: Vec<u8>)
        ensures
            pipe@ == self@.bytes,
    {
        self.pipe
    }
}

impl BinSerializer for BinSerializerBase {
    fn mode(&self) -> (mode: Mode) {
        self.mode
    }

    fn set_mode(&mut self, mode: Mode) {
        self.mode = mode;
    }

    fn write_byte(&mut self, byte: u8) {
        self.pipe.push(byte);
        assert(self.pipe@ == old(self).pipe@ + seq![byte]);
    }

    fn write_all(&mut self, bytes: &[u8]) {
        append_bytes(&mut self.pipe, bytes);
    }

    fn intern(&mut self, s: &str) -> (index: usize) {
        self.dedup.intern(s)
    }
}

} // verus!
