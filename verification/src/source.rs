//! A byte source: a borrowed buffer and a position in it.

use crate::error::{Error, Fault};
use vstd::prelude::*;
use vstd::slice::slice_subrange;

verus! {

/// `after` is `before` without its first `count` bytes.
pub open spec fn advanced(before: Seq<u8>, after: Seq<u8>, count: nat) -> bool {
    count <= before.len() && after == before.skip(count as int)
}

/// Taking `first` bytes and then `second` bytes takes `first + second` bytes.
pub proof fn lemma_advanced_twice(
    before: Seq<u8>,
    between: Seq<u8>,
    after: Seq<u8>,
    first: nat,
    second: nat,
)
    requires
        advanced(before, between, first),
        advanced(between, after, second),
    ensures
        advanced(before, after, first + second),
{
    assert(before.skip(first as int).skip(second as int) == before.skip((first + second) as int));
}

/// A buffer that is read from front to back. Its view is what is left to read.
#[derive(Clone, Copy, Debug)]
pub struct Source<'a> {
    data: &'a [u8],
    pos: usize,
}

impl<'a> View for Source<'a> {
    type V = Seq<u8>;

    closed spec fn view(&self) -> Seq<u8> {
        self.data@.skip(self.pos as int)
    }
}

impl<'a> Source<'a> {
    #[verifier::type_invariant]
    spec fn in_bounds(self) -> bool {
        self.pos <= self.data@.len()
    }

    /// A source at the start of `data`.
    pub fn new(data: &'a [u8]) -> (s: Self)
        ensures
            s@ == data@,
    {
        Source { data, pos: 0 }
    }

    /// How many bytes are left.
    pub fn available(&self) -> (n: usize)
        ensures
            n == self@.len(),
    {
        proof {
            use_type_invariant(self);
        }
        self.data.len() - self.pos
    }

    /// Takes the next byte, or fails with [`Error::Io`] at the end of the buffer.
    pub fn read_byte(&mut self) -> (r: Result<u8, Error>)
        ensures
            match r {
                Ok(b) => b == old(self)@[0] && advanced(old(self)@, final(self)@, 1),
                Err(e) => old(self)@.len() == 0 && e@ == Fault::Io && *final(self) == *old(self),
            },
    {
        proof {
            use_type_invariant(&*self);
        }
        if self.pos < self.data.len() {
            let b = self.data[self.pos];
            self.pos = self.pos + 1;
            assert(self.data@.skip(self.pos as int) == old(self)@.skip(1));
            Ok(b)
        } else {
            Err(Error::Io)
        }
    }

    /// Takes the next `n` bytes, or fails with [`Error::Io`] and takes nothing if
    /// fewer are left.
    pub fn read_exact(&mut self, n: usize) -> (r: Result<&'a [u8], Error>)
        ensures
            match r {
                Ok(bytes) => bytes@ == old(self)@.take(n as int) && advanced(
                    old(self)@,
                    final(self)@,
                    n as nat,
                ),
                Err(e) => n > old(self)@.len() && e@ == Fault::Io && *final(self) == *old(self),
            },
    {
        proof {
            use_type_invariant(&*self);
        }
        if n <= self.data.len() - self.pos {
            let bytes = slice_subrange(self.data, self.pos, self.pos + n);
            self.pos = self.pos + n;
            assert(bytes@ == old(self)@.take(n as int));
            assert(self.data@.skip(self.pos as int) == old(self)@.skip(n as int));
            Ok(bytes)
        } else {
            Err(Error::Io)
        }
    }
}

} // verus!
