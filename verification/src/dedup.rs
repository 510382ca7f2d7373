//! The string pool: each distinct string once, in the order of first occurrence,
//! and its encoding at the head of a stream.

use crate::error::{Error, Fault};
use crate::source::{advanced, lemma_advanced_twice, Source};
use crate::text::{decode_str, encode_str, lemma_str_round_trip, parse_str, str_wire};
use crate::varint::{decode_varint, encode_varint, lemma_varint_round_trip, parse_varint, varint};
use vstd::prelude::*;

verus! {

/// A pool in contracts: the strings in index order.
pub type Pool = Seq<Seq<char>>;

/// The index of the first occurrence of `s` in `pool`, or the length of `pool`
/// where `s` does not occur.
pub open spec fn position(pool: Pool, s: Seq<char>) -> nat
    decreases pool.len(),
{
    if pool.len() == 0 {
        0
    } else if pool[0] == s {
        0
    } else {
        1 + position(pool.drop_first(), s)
    }
}

/// The pool after `s` was interned: unchanged where `s` occurs, and with `s` at
/// the end where it does not.
pub open spec fn interned(pool: Pool, s: Seq<char>) -> Pool {
    if position(pool, s) < pool.len() {
        pool
    } else {
        pool.push(s)
    }
}

/// The entries of `pool` as they are written: each string inline, in index order.
pub open spec fn entries_wire(pool: Pool) -> Seq<u8>
    decreases pool.len(),
{
    if pool.len() == 0 {
        Seq::empty()
    } else {
        str_wire(pool[0]) + entries_wire(pool.drop_first())
    }
}

/// The table that holds `pool`: the number of entries, then the entries.
pub open spec fn table_wire(pool: Pool) -> Seq<u8> {
    varint(pool.len()) + entries_wire(pool)
}

/// What reading `count` entries at the head of `input` gives: the strings and how
/// many bytes they took, or the fault of the first entry that cannot be read.
pub open spec fn parse_entries(input: Seq<u8>, count: nat) -> Result<(Pool, nat), Fault>
    decreases count,
{
    if count == 0 {
        Ok((Seq::empty(), 0))
    } else {
        match parse_str(input) {
            Ok((s, taken)) => match parse_entries(input.skip(taken as int), (count - 1) as nat) {
                Ok((tail, more)) => Ok((seq![s] + tail, taken + more)),
                Err(fault) => Err(fault),
            },
            Err(fault) => Err(fault),
        }
    }
}

/// What reading a table at the head of `input` gives: the pool and how many bytes
/// the table took.
pub open spec fn parse_table(input: Seq<u8>) -> Result<(Pool, nat), Fault> {
    match parse_varint(input) {
        Ok((count, taken)) => if count > usize::MAX {
            Err(Fault::TryFromInt)
        } else {
            match parse_entries(input.skip(taken as int), count) {
                Ok((pool, more)) => Ok((pool, taken + more)),
                Err(fault) => Err(fault),
            }
        },
        Err(fault) => Err(fault),
    }
}

/// A result of [`parse_entries`] for the entries still to read, as a result for
/// all of them: `head` holds the entries read so far and `taken` their bytes.
pub open spec fn lift_entries(tail: Result<(Pool, nat), Fault>, head: Pool, taken: nat) -> Result<
    (Pool, nat),
    Fault,
> {
    match tail {
        Ok((pool, more)) => Ok((head + pool, taken + more)),
        Err(fault) => Err(fault),
    }
}

/// `position` is where a scan from the front first finds `s`: no string before
/// index `i` is `s`, and the one at `i`, if there is one, is.
pub proof fn lemma_position(pool: Pool, s: Seq<char>, i: int)
    requires
        0 <= i <= pool.len(),
        forall|j: int| 0 <= j < i ==> pool[j] != s,
        i < pool.len() ==> pool[i] == s,
    ensures
        position(pool, s) == i,
    decreases pool.len(),
{
    if pool.len() > 0 && i > 0 {
        let tail = pool.drop_first();
        assert forall|j: int| 0 <= j < i - 1 implies tail[j] != s by {
            assert(tail[j] == pool[j + 1]);
        }
        lemma_position(tail, s, i - 1);
    }
}

/// `position` is an index of `s`, or the pool's length where `s` does not occur.
pub proof fn lemma_position_finds(pool: Pool, s: Seq<char>)
    ensures
        position(pool, s) <= pool.len(),
        position(pool, s) < pool.len() ==> pool[position(pool, s) as int] == s,
        forall|j: int| 0 <= j < position(pool, s) ==> pool[j] != s,
    decreases pool.len(),
{
    if pool.len() > 0 && pool[0] != s {
        let tail = pool.drop_first();
        lemma_position_finds(tail, s);
        assert forall|j: int| 0 <= j < position(pool, s) implies pool[j] != s by {
            if j > 0 {
                assert(pool[j] == tail[j - 1]);
            }
        }
    }
}

/// Interning keeps every index: the old pool is the head of the new one, the
/// string is found at the index that interning returns, and a pool without
/// repetitions stays one.
pub proof fn lemma_interned(pool: Pool, s: Seq<char>)
    ensures
        pool.is_prefix_of(interned(pool, s)),
        position(pool, s) < interned(pool, s).len(),
        interned(pool, s)[position(pool, s) as int] == s,
        pool.no_duplicates() ==> interned(pool, s).no_duplicates(),
{
    lemma_position_finds(pool, s);
}

/// Reading the entries written for `pool` gives `pool` back, whatever follows
/// them, and takes exactly the bytes written.
pub proof fn lemma_entries_round_trip(pool: Pool, rest: Seq<u8>)
    requires
        (entries_wire(pool) + rest).len() <= usize::MAX,
    ensures
        parse_entries(entries_wire(pool) + rest, pool.len()) == Ok::<(Pool, nat), Fault>(
            (pool, entries_wire(pool).len()),
        ),
        pool.len() <= entries_wire(pool).len(),
    decreases pool.len(),
{
    if pool.len() > 0 {
        let tail = pool.drop_first();
        let input = entries_wire(pool) + rest;
        let after = entries_wire(tail) + rest;
        assert(input == str_wire(pool[0]) + after);
        lemma_str_round_trip(pool[0], after);
        assert(input.skip(str_wire(pool[0]).len() as int) == after);
        lemma_entries_round_trip(tail, rest);
        assert(seq![pool[0]] + tail == pool);
    } else {
        assert(pool == Seq::<Seq<char>>::empty());
        assert(entries_wire(pool) + rest == rest);
    }
}

/// Reading the table written for `pool` gives `pool` back, whatever follows it,
/// and takes exactly the bytes written.
pub proof fn lemma_table_round_trip(pool: Pool, rest: Seq<u8>)
    requires
        (table_wire(pool) + rest).len() <= usize::MAX,
    ensures
        parse_table(table_wire(pool) + rest) == Ok::<(Pool, nat), Fault>(
            (pool, table_wire(pool).len()),
        ),
{
    let input = table_wire(pool) + rest;
    let after = entries_wire(pool) + rest;
    lemma_entries_round_trip(pool, rest);
    assert(input == varint(pool.len()) + after);
    lemma_varint_round_trip(pool.len(), after);
    assert(input.skip(varint(pool.len()).len() as int) == after);
}

/// The strings seen so far, each once, in the order of first occurrence. While a
/// value is written the pool grows by interning; when a stream is read the pool is
/// the table at its head.
#[derive(Debug)]
pub struct DedupContext {
    strings: Vec<String>,
}

impl View for DedupContext {
    type V = Pool;

    closed spec fn view(&self) -> Pool {
        self.strings.deep_view()
    }
}

impl DedupContext {
    /// The empty pool.
    pub fn new() -> (ctx: Self)
        ensures
            ctx@ == Seq::<Seq<char>>::empty(),
    {
        let ctx = DedupContext { strings: Vec::new() };
        assert(ctx@ == Seq::<Seq<char>>::empty());
        ctx
    }

    /// The number of strings in the pool.
    pub fn len(&self) -> (n: usize)
        ensures
            n == self@.len(),
    {
        self.strings.len()
    }

    /// The index of `s` in the pool. A string seen before keeps the index it was
    /// given first; a new one gets the next index and joins the pool.
    pub fn intern(&mut self, s: &str) -> (index: usize)
        ensures
            index == position(old(self)@, s@),
            final(self)@ == interned(old(self)@, s@),
    {
        let owned = s.to_owned();
        let mut i: usize = 0;
        while i < self.strings.len()
            invariant
                *self == *old(self),
                owned@ == s@,
                i <= self@.len(),
                forall|j: int| 0 <= j < i ==> self@[j] != s@,
            decreases self@.len() - i,
        {
            if self.strings[i] == owned {
                proof {
                    lemma_position(self@, s@, i as int);
                }
                return i;
            }
            i = i + 1;
        }
        proof {
            lemma_position(self@, s@, i as int);
        }
        self.strings.push(owned);
        assert(self@ == old(self)@.push(s@));
        i
    }

    /// The string at `index`, or [`Error::StrOutOfRange`] where the pool has none.
    pub fn lookup(&self, index: usize) -> (r: Result<&str, Error>)
        ensures
            match r {
                Ok(s) => index < self@.len() && s@ == self@[index as int],
                Err(e) => index >= self@.len() && e@ == Fault::StrOutOfRange(index as nat),
            },
    {
        if index < self.strings.len() {
            Ok(self.strings[index].as_str())
        } else {
            Err(Error::StrOutOfRange(index))
        }
    }

    /// Appends the table that holds this pool to `out`.
    pub fn write_to(&self, out: &mut Vec<u8>)
        ensures
            final(out)@ == old(out)@ + table_wire(self@),
    {
        encode_varint(out, self.strings.len() as u64);
        let mut i: usize = 0;
        assert(self@.skip(0) == self@);
        assert(old(out)@ + table_wire(self@) == out@ + entries_wire(self@));
        while i < self.strings.len()
            invariant
                i <= self@.len(),
                old(out)@ + table_wire(self@) == out@ + entries_wire(self@.skip(i as int)),
            decreases self@.len() - i,
        {
            let ghost emitted = out@;
            let ghost left = self@.skip(i as int);
            encode_str(out, self.strings[i].as_str());
            assert(left[0] == self@[i as int]);
            assert(left.drop_first() == self@.skip(i + 1));
            assert(out@ + entries_wire(left.drop_first()) == emitted + entries_wire(left));
            i = i + 1;
        }
        assert(self@.skip(i as int).len() == 0);
    }

    /// Reads the table at the head of `src`.
    pub fn read_from(src: &mut Source<'_>) -> (r: Result<Self, Error>)
        ensures
            match parse_table(old(src)@) {
                Ok((pool, count)) => r matches Ok(ctx) && ctx@ == pool && advanced(
                    old(src)@,
                    final(src)@,
                    count,
                ),
                Err(fault) => r matches Err(e) && e@ == fault,
            },
    {
        let count = match decode_varint(src) {
            Ok(count) => count,
            Err(e) => {
                return Err(e);
            },
        };
        if count > usize::MAX as u64 {
            return Err(Error::TryFromInt);
        }
        let ghost start = src@;
        let ghost head = parse_varint(old(src)@)->Ok_0.1;
        let mut ctx = DedupContext { strings: Vec::new() };
        let ghost mut taken: nat = 0;
        let mut i: usize = 0;
        assert(ctx@ + Seq::<Seq<char>>::empty() == ctx@);
        assert(start.skip(0) == start);
        while i < count as usize
            invariant
                i <= count,
                count <= usize::MAX,
                ctx@.len() == i,
                advanced(start, src@, taken),
                parse_entries(start, count as nat) == lift_entries(
                    parse_entries(src@, (count - i) as nat),
                    ctx@,
                    taken,
                ),
                parse_varint(old(src)@) == Ok::<(nat, nat), Fault>((count as nat, head)),
                advanced(old(src)@, start, head),
            decreases count - i,
        {
            let ghost here = src@;
            let ghost seen = ctx@;
            let s = match decode_str(src) {
                Ok(s) => s,
                Err(e) => {
                    return Err(e);
                },
            };
            ctx.strings.push(s);
            i = i + 1;
            proof {
                let step = parse_str(here)->Ok_0.1;
                assert(ctx@ == seen.push(s@));
                if let Ok((pool, more)) = parse_entries(src@, (count - i) as nat) {
                    assert(seen + (seq![s@] + pool) == ctx@ + pool);
                }
                lemma_advanced_twice(start, here, src@, taken, step);
                taken = taken + step;
            }
        }
        proof {
            assert(ctx@ + Seq::<Seq<char>>::empty() == ctx@);
            lemma_advanced_twice(old(src)@, start, src@, head, taken);
        }
        Ok(ctx)
    }
}

} // verus!
