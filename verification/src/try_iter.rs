//! Reading the elements of a sequence one at a time, up to the first failure.

use crate::de::{decoded, BinDeserialize, BinDeserializerBase};
use crate::error::Error;
use vstd::prelude::*;

verus! {

/// The elements of a sequence whose count was read, still to be decoded. Each call
/// of [`TryIter::next`] decodes one. A failure ends the sequence: nothing is
/// decoded after it.
#[derive(Debug)]
pub struct TryIter {
    remaining: usize,
    failed: bool,
}

impl TryIter {
    /// How many elements are still to come: those not yet decoded, and none after
    /// a failure.
    pub closed spec fn left(self) -> nat {
        if self.failed {
            0
        } else {
            self.remaining as nat
        }
    }

    /// The elements of a sequence of `len` elements, none of them decoded yet.
    pub fn new(len: usize) -> (it: Self)
        ensures
            it.left() == len,
    {
        TryIter { remaining: len, failed: false }
    }

    /// How many elements are still to come.
    pub fn len(&self) -> (n: usize)
        ensures
            n == self.left(),
    {
        if self.failed {
            0
        } else {
            self.remaining
        }
    }

    /// Decodes the next element from `d`. Gives nothing, and reads nothing, once
    /// all elements were decoded or one has failed.
    pub fn next<T: BinDeserialize>(&mut self, d: &mut BinDeserializerBase<'_, '_>) -> (r: Option<
        Result<T, Error>,
    >)
        ensures
            old(self).left() == 0 ==> r is None && final(self).left() == 0 && final(d)@ == old(d)@,
            old(self).left() > 0 ==> (r matches Some(item) && decoded::<T>(
                T::parse(old(d)@),
                item,
                old(d)@,
                final(d)@,
            ) && final(self).left() == if item is Ok {
                old(self).left() - 1
            } else {
                0
            }),
    {
        if self.failed || self.remaining == 0 {
            return None;
        }
        match T::deserialize(d) {
            Ok(v) => {
                self.remaining = self.remaining - 1;
                Some(Ok(v))
            },
            Err(e) => {
                self.failed = true;
                Some(Err(e))
            },
        }
    }
}

} // verus!
