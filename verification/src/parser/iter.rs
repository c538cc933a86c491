//! A read-only cursor over the input buffer.

use vstd::prelude::*;
use vstd::slice::slice_subrange;

verus! {

/// A position in a borrowed byte buffer.  It hands out the bytes one at a
/// time and never moves past the end of the buffer.
#[derive(Debug, Clone, Copy)]
pub struct Iter<'a> {
    slice: &'a [u8],
    i: usize,
}

impl<'a> Iter<'a> {
    /// The whole buffer that the cursor walks over.
    pub closed spec fn bytes(&self) -> Seq<u8> {
        self.slice@
    }

    /// The number of bytes that have been consumed.
    pub closed spec fn offset(&self) -> nat {
        self.i as nat
    }

    /// The cursor is never behind the end of its buffer, whose length is
    /// that of a slice.
    #[verifier::type_invariant]
    pub open spec fn in_bounds(&self) -> bool {
        self.offset() <= self.bytes().len() <= usize::MAX
    }

    /// A cursor at the start of `bytes`.
    pub fn new(bytes: &'a [u8]) -> (iter: Iter<'a>)
        ensures
            iter.bytes() == bytes@,
            iter.offset() == 0,
    {
        assert(bytes@.len() == vstd::slice::spec_slice_len(bytes));
        Iter { slice: bytes, i: 0 }
    }

    /// The byte that [`Iter::next`] would hand out, without consuming it.
    pub fn peek(&self) -> (byte: Option<&'a u8>)
        ensures
            self.offset() < self.bytes().len() ==> byte == Some(&self.bytes()[self.offset() as int]),
            self.offset() >= self.bytes().len() ==> byte is None,
    {
        proof {
            use_type_invariant(self);
        }
        if self.i < self.slice.len() {
            Some(&self.slice[self.i])
        } else {
            None
        }
    }

    /// The number of bytes consumed so far.
    pub fn pos(&self) -> (pos: usize)
        ensures
            pos == self.offset(),
            pos <= self.bytes().len(),
    {
        proof {
            use_type_invariant(self);
        }
        self.i
    }

    /// The bytes of the buffer from `start` up to, not including, `end`.
    pub fn subslice(&self, start: usize, end: usize) -> (part: &'a [u8])
        requires
            start <= end <= self.bytes().len(),
        ensures
            part@ == self.bytes().subrange(start as int, end as int),
    {
        slice_subrange(self.slice, start, end)
    }

    /// Consumes one byte and hands it out; at the end of the buffer the
    /// cursor stays where it is.
    pub fn next(&mut self) -> (byte: Option<&'a u8>)
        ensures
            final(self).bytes() == old(self).bytes(),
            final(self).offset() <= final(self).bytes().len(),
            old(self).offset() < old(self).bytes().len() ==> byte == Some(
                &old(self).bytes()[old(self).offset() as int],
            ) && final(self).offset() == old(self).offset() + 1,
            old(self).offset() >= old(self).bytes().len() ==> byte is None && final(self).offset()
                == old(self).offset(),
    {
        proof {
            use_type_invariant(&*self);
        }
        if self.i < self.slice.len() {
            let byte = &self.slice[self.i];
            self.i += 1;
            Some(byte)
        } else {
            None
        }
    }

    /// The number of bytes left, as a lower and an upper bound.
    pub fn size_hint(&self) -> (hint: (usize, Option<usize>))
        ensures
            hint.0 == self.bytes().len() - self.offset(),
            hint.1 == Some(hint.0),
    {
        proof {
            use_type_invariant(self);
        }
        let remaining = self.slice.len() - self.i;
        (remaining, Some(remaining))
    }

    /// The length of the whole buffer, consumed bytes included.
    pub fn len(&self) -> (len: usize)
        ensures
            len == self.bytes().len(),
    {
        self.slice.len()
    }
}

} // verus!
