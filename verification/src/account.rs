//! The strings of a value, and what deduplication does to the length of its
//! bytes: each string that stood inline is replaced by an index.

use crate::dedup::{interned, position, Pool};
use crate::mode::Mode;
use crate::ser::BinSerialize;
use crate::text::str_wire;
use crate::varint::varint;
use vstd::prelude::*;

verus! {

/// The pool after the strings `ss` were interned, one after another.
pub open spec fn interned_all(pool: Pool, ss: Seq<Seq<char>>) -> Pool
    decreases ss.len(),
{
    if ss.len() == 0 {
        pool
    } else {
        interned_all(interned(pool, ss[0]), ss.drop_first())
    }
}

/// How many bytes the strings `ss` take when each stands inline.
pub open spec fn inline_len(ss: Seq<Seq<char>>) -> nat
    decreases ss.len(),
{
    if ss.len() == 0 {
        0
    } else {
        str_wire(ss[0]).len() + inline_len(ss.drop_first())
    }
}

/// How many bytes the indices of the strings `ss` take when they are interned,
/// one after another, into `pool`.
pub open spec fn index_len(pool: Pool, ss: Seq<Seq<char>>) -> nat
    decreases ss.len(),
{
    if ss.len() == 0 {
        0
    } else {
        varint(position(pool, ss[0])).len() + index_len(interned(pool, ss[0]), ss.drop_first())
    }
}

/// Interning the strings of `a` and then those of `b` is interning those of
/// `a + b`, and the lengths add up.
pub proof fn lemma_strings_joined(pool: Pool, a: Seq<Seq<char>>, b: Seq<Seq<char>>)
    ensures
        interned_all(pool, a + b) == interned_all(interned_all(pool, a), b),
        inline_len(a + b) == inline_len(a) + inline_len(b),
        index_len(pool, a + b) == index_len(pool, a) + index_len(interned_all(pool, a), b),
    decreases a.len(),
{
    if a.len() == 0 {
        assert(a + b == b);
    } else {
        assert((a + b)[0] == a[0]);
        assert((a + b).drop_first() == a.drop_first() + b);
        lemma_strings_joined(interned(pool, a[0]), a.drop_first(), b);
    }
}

/// A type that says which strings of a value deduplication replaces by indices.
pub trait DedupStrings: BinSerialize {
    /// The strings of the value `v` that are written as indices where
    /// deduplication is on, in the order in which they are written.
    spec fn strings(v: Self::V) -> Seq<Seq<char>>;

    /// With deduplication on, a value leaves the pool that interning its strings
    /// in order gives, and its bytes are those it has with deduplication off,
    /// whatever pool stood before it then, with each of its strings replaced by
    /// its index.
    proof fn lemma_strings(&self, mode: Mode, pool: Pool, other: Pool)
        requires
            mode.use_dedup,
        ensures
            Self::encoded(self.deep_view(), mode, pool).pool == interned_all(
                pool,
                Self::strings(self.deep_view()),
            ),
            Self::encoded(self.deep_view(), mode, pool).bytes.len() + inline_len(
                Self::strings(self.deep_view()),
            ) == Self::encoded(self.deep_view(), mode.inline_strings(), other).bytes.len()
                + index_len(pool, Self::strings(self.deep_view())),
    ;
}

} // verus!
