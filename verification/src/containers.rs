//! References, boxes, options, sequences and pairs as encodable and decodable
//! types. A sequence is its length and then its elements. An associative
//! container is its length and then its entries, each a key with its value, and is
//! written and read as the pairs in the order in which the caller walks it: the
//! order of a hash map is no part of its value, so the bytes of one are stated
//! over the walk, not over the map.

use crate::account::{
    index_len, inline_len, interned_all, lemma_strings_joined, DedupStrings,
};
use crate::de::{
    decoded, lemma_took_twice, parse_bool, parse_len, read_bool, read_len, took, BinDeserialize,
    BinDeserializerBase, Input,
};
use crate::dedup::Pool;
use crate::error::{Error, Fault};
use crate::mode::Mode;
use crate::roundtrip::{lemma_bool_round_trip, lemma_len_round_trip, RoundTrip};
use crate::ser::{
    bool_wire, lemma_prefix_added, lemma_prefix_chain, len_wire, write_bool, write_len, written,
    BinSerialize, BinSerializer, Encoded,
};
use crate::try_iter::TryIter;
use vstd::prelude::*;

verus! {

/// What the elements `vs` become, one after another: each is written with the pool
/// that the one before it left.
pub open spec fn items_encoded<T: BinSerialize>(vs: Seq<T::V>, mode: Mode, pool: Pool) -> Encoded
    decreases vs.len(),
{
    if vs.len() == 0 {
        Encoded { bytes: Seq::empty(), pool }
    } else {
        let first = T::encoded(vs[0], mode, pool);
        let others = items_encoded::<T>(vs.drop_first(), mode, first.pool);
        Encoded { bytes: first.bytes + others.bytes, pool: others.pool }
    }
}

/// The fault that writing the elements `vs` ends with, if it fails: that of the
/// first element that fails.
pub open spec fn items_fault<T: BinSerialize>(vs: Seq<T::V>, mode: Mode, pool: Pool) -> Option<
    Fault,
>
    decreases vs.len(),
{
    if vs.len() == 0 {
        None
    } else {
        match T::fault(vs[0], mode, pool) {
            Some(fault) => Some(fault),
            None => items_fault::<T>(vs.drop_first(), mode, T::encoded(vs[0], mode, pool).pool),
        }
    }
}

/// The fault that writing a pair ends with, if it fails: that of the first part,
/// or else that of the second.
pub open spec fn pair_fault<A: BinSerialize, B: BinSerialize>(
    v: (A::V, B::V),
    mode: Mode,
    pool: Pool,
) -> Option<Fault> {
    match A::fault(v.0, mode, pool) {
        Some(fault) => Some(fault),
        None => B::fault(v.1, mode, A::encoded(v.0, mode, pool).pool),
    }
}

/// The fault that writing an optional value ends with, if it fails: that of the
/// value, if there is one.
pub open spec fn option_fault<T: BinSerialize>(v: Option<T::V>, mode: Mode, pool: Pool) -> Option<
    Fault,
> {
    match v {
        Some(inner) => T::fault(inner, mode, pool),
        None => None,
    }
}

/// The strings of the elements `vs`, one element after another.
pub open spec fn items_strings<T: DedupStrings>(vs: Seq<T::V>) -> Seq<Seq<char>>
    decreases vs.len(),
{
    if vs.len() == 0 {
        Seq::empty()
    } else {
        T::strings(vs[0]) + items_strings::<T>(vs.drop_first())
    }
}

/// What a sequence becomes: its length, then its elements.
pub open spec fn seq_encoded<T: BinSerialize>(vs: Seq<T::V>, mode: Mode, pool: Pool) -> Encoded {
    let items = items_encoded::<T>(vs, mode, pool);
    Encoded { bytes: len_wire(vs.len()) + items.bytes, pool: items.pool }
}

/// What a pair becomes: the first part, then the second.
pub open spec fn pair_encoded<A: BinSerialize, B: BinSerialize>(
    v: (A::V, B::V),
    mode: Mode,
    pool: Pool,
) -> Encoded {
    let first = A::encoded(v.0, mode, pool);
    let second = B::encoded(v.1, mode, first.pool);
    Encoded { bytes: first.bytes + second.bytes, pool: second.pool }
}

/// What an optional value becomes: a boolean that says whether a value is there,
/// and then the value if it is.
pub open spec fn option_encoded<T: BinSerialize>(v: Option<T::V>, mode: Mode, pool: Pool)
    -> Encoded {
    match v {
        Some(inner) => {
            let value = T::encoded(inner, mode, pool);
            Encoded { bytes: bool_wire(true) + value.bytes, pool: value.pool }
        },
        None => Encoded { bytes: bool_wire(false), pool },
    }
}

/// What reading `count` elements at the head of `input` gives: the elements and
/// the bytes they took, or the fault of the first element that cannot be read.
pub open spec fn parse_items<T: BinDeserialize>(input: Input, count: nat) -> Result<
    (Seq<T::V>, nat),
    Fault,
>
    decreases count,
{
    if count == 0 {
        Ok((Seq::empty(), 0))
    } else {
        match T::parse(input) {
            Ok((v, taken)) => match parse_items::<T>(input.skip(taken), (count - 1) as nat) {
                Ok((others, more)) => Ok((seq![v] + others, taken + more)),
                Err(fault) => Err(fault),
            },
            Err(fault) => Err(fault),
        }
    }
}

/// What reading a sequence gives: its length, then that many elements.
pub open spec fn parse_seq<T: BinDeserialize>(input: Input) -> Result<(Seq<T::V>, nat), Fault> {
    match parse_len(input.bytes) {
        Ok((len, taken)) => match parse_items::<T>(input.skip(taken), len) {
            Ok((vs, more)) => Ok((vs, taken + more)),
            Err(fault) => Err(fault),
        },
        Err(fault) => Err(fault),
    }
}

/// What reading a pair gives: the first part, then the second.
pub open spec fn parse_pair<A: BinDeserialize, B: BinDeserialize>(input: Input) -> Result<
    ((A::V, B::V), nat),
    Fault,
> {
    match A::parse(input) {
        Ok((a, taken)) => match B::parse(input.skip(taken)) {
            Ok((b, more)) => Ok(((a, b), taken + more)),
            Err(fault) => Err(fault),
        },
        Err(fault) => Err(fault),
    }
}

/// What reading an optional value gives: nothing after a false boolean, and the
/// value after a true one.
pub open spec fn parse_option<T: BinDeserialize>(input: Input) -> Result<(Option<T::V>, nat), Fault> {
    match parse_bool(input.bytes) {
        Ok((present, taken)) => if present {
            match T::parse(input.skip(taken)) {
                Ok((v, more)) => Ok((Some(v), taken + more)),
                Err(fault) => Err(fault),
            }
        } else {
            Ok((None, taken))
        },
        Err(fault) => Err(fault),
    }
}

/// A result of [`parse_items`] for the elements still to read, as a result for all
/// of them: `head` holds the elements read so far and `taken` their bytes.
pub open spec fn lift_items<V>(tail: Result<(Seq<V>, nat), Fault>, head: Seq<V>, taken: nat)
    -> Result<(Seq<V>, nat), Fault> {
    match tail {
        Ok((others, more)) => Ok((head + others, taken + more)),
        Err(fault) => Err(fault),
    }
}

/// The deep views of the elements of `items`.
pub open spec fn deep<T: DeepView>(items: Seq<T>) -> Seq<T::V> {
    Seq::new(items.len(), |i: int| items[i].deep_view())
}

/// Writing elements only adds to the pool, adds no string twice, and leaves the
/// pool alone where deduplication is off.
pub proof fn lemma_items_pool<T: BinSerialize>(items: Seq<T>, mode: Mode, pool: Pool)
    ensures
        pool.is_prefix_of(items_encoded::<T>(deep(items), mode, pool).pool),
        pool.no_duplicates() ==> items_encoded::<T>(deep(items), mode, pool).pool.no_duplicates(),
        !mode.use_dedup ==> items_encoded::<T>(deep(items), mode, pool).pool == pool,
    decreases items.len(),
{
    if items.len() > 0 {
        let first = T::encoded(deep(items)[0], mode, pool);
        items[0].lemma_pool(mode, pool);
        assert(deep(items).drop_first() == deep(items.drop_first()));
        lemma_items_pool::<T>(items.drop_first(), mode, first.pool);
        lemma_prefix_chain(pool, first.pool, items_encoded::<T>(deep(items), mode, pool).pool);
    }
}

/// With deduplication on, elements leave the pool that interning their strings in
/// order gives, and their bytes are those they have with deduplication off, with
/// each string replaced by its index.
pub proof fn lemma_items_strings<T: DedupStrings>(
    items: Seq<T>,
    mode: Mode,
    pool: Pool,
    other: Pool,
)
    requires
        mode.use_dedup,
    ensures
        items_encoded::<T>(deep(items), mode, pool).pool == interned_all(
            pool,
            items_strings::<T>(deep(items)),
        ),
        items_encoded::<T>(deep(items), mode, pool).bytes.len() + inline_len(
            items_strings::<T>(deep(items)),
        ) == items_encoded::<T>(deep(items), mode.inline_strings(), other).bytes.len() + index_len(
            pool,
            items_strings::<T>(deep(items)),
        ),
    decreases items.len(),
{
    if items.len() > 0 {
        let tail = items.drop_first();
        let first = T::encoded(deep(items)[0], mode, pool);
        assert(deep(items).drop_first() == deep(tail));
        items[0].lemma_strings(mode, pool, other);
        items[0].lemma_pool(mode.inline_strings(), other);
        lemma_items_strings::<T>(tail, mode, first.pool, other);
        lemma_strings_joined(pool, T::strings(deep(items)[0]), items_strings::<T>(deep(tail)));
    }
}

/// Elements read back as they were written.
pub proof fn lemma_items_round_trip<T: RoundTrip>(
    items: Seq<T>,
    mode: Mode,
    pool: Pool,
    table: Pool,
    rest: Seq<u8>,
)
    requires
        items_encoded::<T>(deep(items), mode, pool).pool.is_prefix_of(table),
        table.len() <= usize::MAX,
        (items_encoded::<T>(deep(items), mode, pool).bytes + rest).len() <= usize::MAX,
    ensures
        parse_items::<T>(
            Input { bytes: items_encoded::<T>(deep(items), mode, pool).bytes + rest, mode, table },
            items.len(),
        ) == Ok::<(Seq<T::V>, nat), Fault>(
            (deep(items), items_encoded::<T>(deep(items), mode, pool).bytes.len()),
        ),
    decreases items.len(),
{
    let all = items_encoded::<T>(deep(items), mode, pool);
    if items.len() > 0 {
        let first = T::encoded(deep(items)[0], mode, pool);
        let tail = items.drop_first();
        assert(deep(items).drop_first() == deep(tail));
        let others = items_encoded::<T>(deep(tail), mode, first.pool);
        lemma_items_pool::<T>(tail, mode, first.pool);
        lemma_prefix_chain(first.pool, others.pool, table);
        assert(all.bytes + rest == first.bytes + (others.bytes + rest));
        items[0].lemma_round_trip(mode, pool, table, others.bytes + rest);
        let input = Input { bytes: all.bytes + rest, mode, table };
        assert(input.skip(first.bytes.len()) == Input { bytes: others.bytes + rest, mode, table });
        lemma_items_round_trip::<T>(tail, mode, first.pool, table, rest);
        assert(seq![deep(items)[0]] + deep(tail) == deep(items));
    } else {
        assert(deep(items) == Seq::<T::V>::empty());
        assert(all.bytes + rest == rest);
    }
}

/// Reads `len` elements from `d`, one at a time, and appends them to `out`. The
/// first element that cannot be read ends the reading.
pub fn read_items<T: BinDeserialize>(d: &mut BinDeserializerBase<'_, '_>, len: usize, out: &mut Vec<T>)
    -> (r: Result<(), Error>)
    ensures
        match parse_items::<T>(old(d)@, len as nat) {
            Ok((vs, count)) => r is Ok && final(out).deep_view() == old(out).deep_view() + vs
                && took(old(d)@, final(d)@, count),
            Err(fault) => r matches Err(e) && e@ == fault,
        },
{
    let mut it = TryIter::new(len);
    let ghost mut taken: nat = 0;
    let ghost mut head: Seq<T::V> = Seq::empty();
    assert(old(d)@.skip(0) == old(d)@);
    assert(old(out).deep_view() + head == out.deep_view());
    assert forall|tail: Result<(Seq<T::V>, nat), Fault>| #[trigger]
        lift_items(tail, head, 0) == tail by {
        if let Ok((others, more)) = tail {
            assert(head + others == others);
        }
    }
    while it.len() > 0
        invariant
            it.left() <= len,
            took(old(d)@, d@, taken),
            out.deep_view() == old(out).deep_view() + head,
            parse_items::<T>(old(d)@, len as nat) == lift_items(
                parse_items::<T>(d@, it.left()),
                head,
                taken,
            ),
        decreases it.left(),
    {
        let ghost here = d@;
        let ghost before = out.deep_view();
        if let Some(item) = it.next::<T>(d) {
            match item {
                Ok(v) => {
                    out.push(v);
                    proof {
                        let step = T::parse(here)->Ok_0.1;
                        assert(out.deep_view() == before + seq![v.deep_view()]);
                        if let Ok((others, more)) = parse_items::<T>(d@, it.left()) {
                            assert(head + (seq![v.deep_view()] + others) == head.push(
                                v.deep_view(),
                            ) + others);
                        }
                        lemma_took_twice(old(d)@, here, d@, taken, step);
                        head = head.push(v.deep_view());
                        taken = taken + step;
                    }
                },
                Err(e) => {
                    return Err(e);
                },
            }
        }
    }
    assert(head + Seq::<T::V>::empty() == head);
    Ok(())
}

/// Writes an associative container: the number of its entries, then each key
/// with its value, in the order given.
pub fn write_map<K: BinSerialize, V: BinSerialize, S: BinSerializer>(s: &mut S, entries: &[(K, V)]) -> (r:
    Result<(), Error>)
    ensures
        written(
            items_fault::<(K, V)>(entries.deep_view(), old(s)@.mode, old(s)@.pool),
            seq_encoded::<(K, V)>(entries.deep_view(), old(s)@.mode, old(s)@.pool),
            r,
            old(s)@,
            final(s)@,
        ),
{
    entries.serialize(s)
}

/// Reads an associative container: the number of its entries, then each key with
/// its value, in the order in which they stand.
pub fn read_map<K: BinDeserialize, V: BinDeserialize>(d: &mut BinDeserializerBase<'_, '_>) -> (r:
    Result<Vec<(K, V)>, Error>)
    ensures
        decoded::<Vec<(K, V)>>(parse_seq::<(K, V)>(old(d)@), r, old(d)@, final(d)@),
{
    Vec::<(K, V)>::deserialize(d)
}

/// Writes a container of keys alone: the number of its keys, then each key, in
/// the order given.
pub fn write_set<K: BinSerialize, S: BinSerializer>(s: &mut S, keys: &[K]) -> (r: Result<(), Error>)
    ensures
        written(
            items_fault::<K>(keys.deep_view(), old(s)@.mode, old(s)@.pool),
            seq_encoded::<K>(keys.deep_view(), old(s)@.mode, old(s)@.pool),
            r,
            old(s)@,
            final(s)@,
        ),
{
    keys.serialize(s)
}

/// Reads a container of keys alone: the number of its keys, then each key, in the
/// order in which they stand.
pub fn read_set<K: BinDeserialize>(d: &mut BinDeserializerBase<'_, '_>) -> (r: Result<
    Vec<K>,
    Error,
>)
    ensures
        decoded::<Vec<K>>(parse_seq::<K>(old(d)@), r, old(d)@, final(d)@),
{
    Vec::<K>::deserialize(d)
}

impl<T: BinSerialize + ?Sized> BinSerialize for &T {
    open spec fn encoded(v: T::V, mode: Mode, pool: Pool) -> Encoded {
        T::encoded(v, mode, pool)
    }

    open spec fn fault(v: T::V, mode: Mode, pool: Pool) -> Option<Fault> {
        T::fault(v, mode, pool)
    }

    fn serialize<S: BinSerializer>(&self, s: &mut S) -> (r: Result<(), Error>) {
        (**self).serialize(s)
    }

    proof fn lemma_pool(&self, mode: Mode, pool: Pool) {
        (**self).lemma_pool(mode, pool);
    }
}

impl<T: BinSerialize + ?Sized> BinSerialize for Box<T> {
    open spec fn encoded(v: T::V, mode: Mode, pool: Pool) -> Encoded {
        T::encoded(v, mode, pool)
    }

    open spec fn fault(v: T::V, mode: Mode, pool: Pool) -> Option<Fault> {
        T::fault(v, mode, pool)
    }

    fn serialize<S: BinSerializer>(&self, s: &mut S) -> (r: Result<(), Error>) {
        (**self).serialize(s)
    }

    proof fn lemma_pool(&self, mode: Mode, pool: Pool) {
        (**self).lemma_pool(mode, pool);
    }
}

impl<T: BinDeserialize> BinDeserialize for Box<T> {
    open spec fn parse(input: Input) -> Result<(T::V, nat), Fault> {
        T::parse(input)
    }

    fn deserialize(d: &mut BinDeserializerBase<'_, '_>) -> (r: Result<Self, Error>) {
        match T::deserialize(d) {
            Ok(v) => Ok(Box::new(v)),
            Err(e) => Err(e),
        }
    }
}

impl<T: RoundTrip> RoundTrip for Box<T> {
    proof fn lemma_round_trip(&self, mode: Mode, pool: Pool, table: Pool, rest: Seq<u8>) {
        (**self).lemma_round_trip(mode, pool, table, rest);
    }
}

impl<T: BinSerialize> BinSerialize for Option<T> {
    open spec fn encoded(v: Option<T::V>, mode: Mode, pool: Pool) -> Encoded {
        option_encoded::<T>(v, mode, pool)
    }

    open spec fn fault(v: Option<T::V>, mode: Mode, pool: Pool) -> Option<Fault> {
        option_fault::<T>(v, mode, pool)
    }

    fn serialize<S: BinSerializer>(&self, s: &mut S) -> (r: Result<(), Error>) {
        match self {
            Some(inner) => {
                write_bool(s, true);
                let ghost here = s@;
                let r = inner.serialize(s);
                proof {
                    lemma_prefix_added(old(s)@.bytes, bool_wire(true));
                    if r is Err {
                        lemma_prefix_chain(old(s)@.bytes, here.bytes, s@.bytes);
                    } else {
                        let value = T::encoded(inner.deep_view(), here.mode, here.pool);
                        assert(old(s)@.bytes + bool_wire(true) + value.bytes == old(s)@.bytes + (
                        bool_wire(true) + value.bytes));
                    }
                }
                r
            },
            None => {
                write_bool(s, false);
                Ok(())
            },
        }
    }

    proof fn lemma_pool(&self, mode: Mode, pool: Pool) {
        if let Some(inner) = self {
            inner.lemma_pool(mode, pool);
        }
    }
}

impl<T: BinDeserialize> BinDeserialize for Option<T> {
    open spec fn parse(input: Input) -> Result<(Option<T::V>, nat), Fault> {
        parse_option::<T>(input)
    }

    fn deserialize(d: &mut BinDeserializerBase<'_, '_>) -> (r: Result<Self, Error>) {
        let ghost start = d@;
        let present = match read_bool(d) {
            Ok(present) => present,
            Err(e) => {
                return Err(e);
            },
        };
        if present {
            let ghost here = d@;
            match T::deserialize(d) {
                Ok(v) => {
                    proof {
                        lemma_took_twice(start, here, d@, 1, T::parse(here)->Ok_0.1);
                    }
                    Ok(Some(v))
                },
                Err(e) => Err(e),
            }
        } else {
            Ok(None)
        }
    }
}

impl<T: RoundTrip> RoundTrip for Option<T> {
    proof fn lemma_round_trip(&self, mode: Mode, pool: Pool, table: Pool, rest: Seq<u8>) {
        match self {
            Some(inner) => {
                let value = T::encoded(inner.deep_view(), mode, pool);
                let bytes = bool_wire(true) + value.bytes + rest;
                assert(bytes == bool_wire(true) + (value.bytes + rest));
                lemma_bool_round_trip(true, value.bytes + rest);
                inner.lemma_round_trip(mode, pool, table, rest);
                let input = Input { bytes, mode, table };
                assert(input.skip(1) == Input { bytes: value.bytes + rest, mode, table });
            },
            None => {
                lemma_bool_round_trip(false, rest);
            },
        }
    }
}

impl<T: BinSerialize> BinSerialize for [T] {
    open spec fn encoded(v: Seq<T::V>, mode: Mode, pool: Pool) -> Encoded {
        seq_encoded::<T>(v, mode, pool)
    }

    open spec fn fault(v: Seq<T::V>, mode: Mode, pool: Pool) -> Option<Fault> {
        items_fault::<T>(v, mode, pool)
    }

    fn serialize<S: BinSerializer>(&self, s: &mut S) -> (r: Result<(), Error>) {
        let ghost all = self.deep_view();
        let ghost start = s@;
        write_len(s, self.len());
        proof {
            assert(all.skip(0) == all);
            lemma_prefix_added(start.bytes, len_wire(self@.len()));
        }
        let mut i: usize = 0;
        while i < self.len()
            invariant
                i <= self@.len(),
                all == self.deep_view(),
                start == old(s)@,
                s@.mode == start.mode,
                start.bytes.is_prefix_of(s@.bytes),
                items_fault::<T>(all, start.mode, start.pool) == items_fault::<T>(
                    all.skip(i as int),
                    start.mode,
                    s@.pool,
                ),
                start.accept(seq_encoded::<T>(all, start.mode, start.pool)) == s@.accept(
                    items_encoded::<T>(all.skip(i as int), start.mode, s@.pool),
                ),
            decreases self@.len() - i,
        {
            let ghost here = s@;
            let ghost left = all.skip(i as int);
            proof {
                assert(left[0] == self@[i as int].deep_view());
                assert(left.drop_first() == all.skip(i + 1));
            }
            match self[i].serialize(s) {
                Ok(()) => {},
                Err(e) => {
                    proof {
                        lemma_prefix_chain(start.bytes, here.bytes, s@.bytes);
                    }
                    return Err(e);
                },
            }
            proof {
                let first = T::encoded(left[0], start.mode, here.pool);
                let others = items_encoded::<T>(left.drop_first(), start.mode, first.pool);
                assert(here.bytes + (first.bytes + others.bytes) == here.bytes + first.bytes
                    + others.bytes);
                lemma_prefix_added(here.bytes, first.bytes);
                lemma_prefix_chain(start.bytes, here.bytes, s@.bytes);
            }
            i = i + 1;
        }
        assert(s@.bytes + Seq::<u8>::empty() == s@.bytes);
        Ok(())
    }

    proof fn lemma_pool(&self, mode: Mode, pool: Pool) {
        assert(self.deep_view() == deep(self@));
        lemma_items_pool::<T>(self@, mode, pool);
    }
}

impl<T: BinSerialize> BinSerialize for Vec<T> {
    open spec fn encoded(v: Seq<T::V>, mode: Mode, pool: Pool) -> Encoded {
        seq_encoded::<T>(v, mode, pool)
    }

    open spec fn fault(v: Seq<T::V>, mode: Mode, pool: Pool) -> Option<Fault> {
        items_fault::<T>(v, mode, pool)
    }

    fn serialize<S: BinSerializer>(&self, s: &mut S) -> (r: Result<(), Error>) {
        let items = self.as_slice();
        assert(items.deep_view() == self.deep_view());
        items.serialize(s)
    }

    proof fn lemma_pool(&self, mode: Mode, pool: Pool) {
        assert(self.deep_view() == deep(self@));
        lemma_items_pool::<T>(self@, mode, pool);
    }
}

impl<T: BinDeserialize> BinDeserialize for Vec<T> {
    open spec fn parse(input: Input) -> Result<(Seq<T::V>, nat), Fault> {
        parse_seq::<T>(input)
    }

    fn deserialize(d: &mut BinDeserializerBase<'_, '_>) -> (r: Result<Self, Error>) {
        let mut out: Vec<T> = Vec::new();
        match out.deserialize_in_place(d) {
            Ok(()) => Ok(out),
            Err(e) => Err(e),
        }
    }

    /// Empties the vector, keeping its storage, and reads the elements into it.
    fn deserialize_in_place(&mut self, d: &mut BinDeserializerBase<'_, '_>) -> (r: Result<(), Error>) {
        let ghost start = d@;
        let len = match read_len(d) {
            Ok(len) => len,
            Err(e) => {
                return Err(e);
            },
        };
        let ghost here = d@;
        self.clear();
        assert(self.deep_view() == Seq::<T::V>::empty());
        match read_items::<T>(d, len, self) {
            Ok(()) => {
                proof {
                    let vs = parse_items::<T>(here, len as nat)->Ok_0.0;
                    assert(Seq::<T::V>::empty() + vs == vs);
                    lemma_took_twice(
                        start,
                        here,
                        d@,
                        parse_len(start.bytes)->Ok_0.1,
                        parse_items::<T>(here, len as nat)->Ok_0.1,
                    );
                }
                Ok(())
            },
            Err(e) => Err(e),
        }
    }
}

impl<T: RoundTrip> RoundTrip for Vec<T> {
    proof fn lemma_round_trip(&self, mode: Mode, pool: Pool, table: Pool, rest: Seq<u8>) {
        assert(self.deep_view() == deep(self@));
        let items = items_encoded::<T>(deep(self@), mode, pool);
        let bytes = len_wire(self@.len()) + items.bytes + rest;
        assert(bytes == len_wire(self@.len()) + (items.bytes + rest));
        vstd::std_specs::vec::axiom_spec_len(self);
        lemma_len_round_trip(self@.len(), items.bytes + rest);
        lemma_items_round_trip::<T>(self@, mode, pool, table, rest);
        let input = Input { bytes, mode, table };
        assert(input.skip(len_wire(self@.len()).len()) == Input {
            bytes: items.bytes + rest,
            mode,
            table,
        });
    }
}

impl<A: BinSerialize, B: BinSerialize> BinSerialize for (A, B) {
    open spec fn encoded(v: (A::V, B::V), mode: Mode, pool: Pool) -> Encoded {
        pair_encoded::<A, B>(v, mode, pool)
    }

    open spec fn fault(v: (A::V, B::V), mode: Mode, pool: Pool) -> Option<Fault> {
        pair_fault::<A, B>(v, mode, pool)
    }

    fn serialize<S: BinSerializer>(&self, s: &mut S) -> (r: Result<(), Error>) {
        match self.0.serialize(s) {
            Ok(()) => {},
            Err(e) => {
                return Err(e);
            },
        }
        let ghost here = s@;
        let ghost first = A::encoded(self.0.deep_view(), old(s)@.mode, old(s)@.pool);
        match self.1.serialize(s) {
            Ok(()) => {
                proof {
                    let second = B::encoded(self.1.deep_view(), here.mode, here.pool);
                    assert(old(s)@.bytes + first.bytes + second.bytes == old(s)@.bytes + (
                    first.bytes + second.bytes));
                }
                Ok(())
            },
            Err(e) => {
                proof {
                    lemma_prefix_added(old(s)@.bytes, first.bytes);
                    lemma_prefix_chain(old(s)@.bytes, here.bytes, s@.bytes);
                }
                Err(e)
            },
        }
    }

    proof fn lemma_pool(&self, mode: Mode, pool: Pool) {
        let first = A::encoded(self.0.deep_view(), mode, pool);
        let second = B::encoded(self.1.deep_view(), mode, first.pool);
        self.0.lemma_pool(mode, pool);
        self.1.lemma_pool(mode, first.pool);
        lemma_prefix_chain(pool, first.pool, second.pool);
    }
}

impl<A: BinDeserialize, B: BinDeserialize> BinDeserialize for (A, B) {
    open spec fn parse(input: Input) -> Result<((A::V, B::V), nat), Fault> {
        parse_pair::<A, B>(input)
    }

    fn deserialize(d: &mut BinDeserializerBase<'_, '_>) -> (r: Result<Self, Error>) {
        let ghost start = d@;
        let a = match A::deserialize(d) {
            Ok(a) => a,
            Err(e) => {
                return Err(e);
            },
        };
        let ghost here = d@;
        match B::deserialize(d) {
            Ok(b) => {
                proof {
                    lemma_took_twice(
                        start,
                        here,
                        d@,
                        A::parse(start)->Ok_0.1,
                        B::parse(here)->Ok_0.1,
                    );
                }
                Ok((a, b))
            },
            Err(e) => Err(e),
        }
    }
}

impl<A: RoundTrip, B: RoundTrip> RoundTrip for (A, B) {
    proof fn lemma_round_trip(&self, mode: Mode, pool: Pool, table: Pool, rest: Seq<u8>) {
        let first = A::encoded(self.0.deep_view(), mode, pool);
        let second = B::encoded(self.1.deep_view(), mode, first.pool);
        self.1.lemma_pool(mode, first.pool);
        lemma_prefix_chain(first.pool, second.pool, table);
        let bytes = first.bytes + second.bytes + rest;
        assert(bytes == first.bytes + (second.bytes + rest));
        self.0.lemma_round_trip(mode, pool, table, second.bytes + rest);
        self.1.lemma_round_trip(mode, first.pool, table, rest);
        let input = Input { bytes, mode, table };
        assert(input.skip(first.bytes.len()) == Input { bytes: second.bytes + rest, mode, table });
    }
}

impl<T: DedupStrings + ?Sized> DedupStrings for &T {
    open spec fn strings(v: T::V) -> Seq<Seq<char>> {
        T::strings(v)
    }

    proof fn lemma_strings(&self, mode: Mode, pool: Pool, other: Pool) {
        (**self).lemma_strings(mode, pool, other);
    }
}

impl<T: DedupStrings + ?Sized> DedupStrings for Box<T> {
    open spec fn strings(v: T::V) -> Seq<Seq<char>> {
        T::strings(v)
    }

    proof fn lemma_strings(&self, mode: Mode, pool: Pool, other: Pool) {
        (**self).lemma_strings(mode, pool, other);
    }
}

impl<T: DedupStrings> DedupStrings for Option<T> {
    open spec fn strings(v: Option<T::V>) -> Seq<Seq<char>> {
        match v {
            Some(inner) => T::strings(inner),
            None => Seq::empty(),
        }
    }

    proof fn lemma_strings(&self, mode: Mode, pool: Pool, other: Pool) {
        if let Some(inner) = self {
            inner.lemma_strings(mode, pool, other);
        }
    }
}

impl<T: DedupStrings> DedupStrings for [T] {
    open spec fn strings(v: Seq<T::V>) -> Seq<Seq<char>> {
        items_strings::<T>(v)
    }

    proof fn lemma_strings(&self, mode: Mode, pool: Pool, other: Pool) {
        assert(self.deep_view() == deep(self@));
        lemma_items_strings::<T>(self@, mode, pool, other);
    }
}

impl<T: DedupStrings> DedupStrings for Vec<T> {
    open spec fn strings(v: Seq<T::V>) -> Seq<Seq<char>> {
        items_strings::<T>(v)
    }

    proof fn lemma_strings(&self, mode: Mode, pool: Pool, other: Pool) {
        assert(self.deep_view() == deep(self@));
        lemma_items_strings::<T>(self@, mode, pool, other);
    }
}

impl<A: DedupStrings, B: DedupStrings> DedupStrings for (A, B) {
    open spec fn strings(v: (A::V, B::V)) -> Seq<Seq<char>> {
        A::strings(v.0) + B::strings(v.1)
    }

    proof fn lemma_strings(&self, mode: Mode, pool: Pool, other: Pool) {
        let first = A::encoded(self.0.deep_view(), mode, pool);
        self.0.lemma_strings(mode, pool, other);
        self.0.lemma_pool(mode.inline_strings(), other);
        self.1.lemma_strings(mode, first.pool, other);
        lemma_strings_joined(pool, A::strings(self.0.deep_view()), B::strings(self.1.deep_view()));
    }
}

} // verus!
