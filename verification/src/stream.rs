//! A cursor over transaction bytes that arrive in chunks.

use crate::outcome::{answers, Decoded, Outcome};
use vstd::prelude::*;

verus! {

/// The bytes received so far and the position of the next unread one.
pub struct ByteStream {
    data: Vec<u8>,
    pos: usize,
}

impl ByteStream {
    #[verifier::type_invariant]
    spec fn cursor_inside(self) -> bool {
        self.pos <= self.data@.len()
    }

    /// Every byte received so far, read or not.
    pub closed spec fn bytes(self) -> Seq<u8> {
        self.data@
    }

    /// The position of the next unread byte.
    pub closed spec fn cursor(self) -> int {
        self.pos as int
    }

    /// The bytes not read yet.
    pub open spec fn remaining(self) -> Seq<u8> {
        self.bytes().skip(self.cursor())
    }

    /// A stream that has received nothing.
    pub fn new() -> (s: Self)
        ensures
            s.bytes() == Seq::<u8>::empty(),
            s.cursor() == 0,
    {
        ByteStream { data: Vec::new(), pos: 0 }
    }

    /// A stream over `bytes`, with the cursor at their start.
    pub fn from_bytes(bytes: &[u8]) -> (s: Self)
        ensures
            s.bytes() == bytes@,
            s.cursor() == 0,
    {
        let mut data: Vec<u8> = Vec::new();
        data.extend_from_slice(bytes);
        assert(data@ =~= bytes@);
        ByteStream { data, pos: 0 }
    }

    /// Appends a chunk. What was read stays read.
    pub fn feed(&mut self, chunk: &[u8])
        ensures
            final(self).bytes() == old(self).bytes() + chunk@,
            final(self).cursor() == old(self).cursor(),
    {
        let mut taken = ByteStream::new();
        core::mem::swap(self, &mut taken);
        proof {
            use_type_invariant(&taken);
        }
        let ByteStream { mut data, pos } = taken;
        data.extend_from_slice(chunk);
        assert(data@ =~= old(self).bytes() + chunk@);
        *self = ByteStream { data, pos };
    }

    /// A second cursor at the same position over the same bytes, for reading
    /// a segment once more.
    pub fn fork(&self) -> (s: Self)
        ensures
            s.bytes() == self.bytes(),
            s.cursor() == self.cursor(),
    {
        proof {
            use_type_invariant(self);
        }
        let mut data: Vec<u8> = Vec::new();
        data.extend_from_slice(self.data.as_slice());
        assert(data@ =~= self.data@);
        ByteStream { data, pos: self.pos }
    }

    /// Every byte received so far, read or not.
    pub fn as_slice(&self) -> (bytes: &[u8])
        ensures
            bytes@ == self.bytes(),
    {
        self.data.as_slice()
    }

    /// The number of bytes received so far.
    pub fn len(&self) -> (n: usize)
        ensures
            n == self.bytes().len(),
    {
        self.data.len()
    }

    /// The position of the next unread byte.
    pub fn position(&self) -> (p: usize)
        ensures
            p == self.cursor(),
            p <= self.bytes().len(),
    {
        proof {
            use_type_invariant(self);
        }
        self.pos
    }

    /// The number of unread bytes.
    pub fn available(&self) -> (n: usize)
        ensures
            n == self.bytes().len() - self.cursor(),
            n == self.remaining().len(),
            self.bytes().len() <= usize::MAX,
    {
        proof {
            use_type_invariant(self);
        }
        self.data.len() - self.pos
    }

    /// The byte at `at`, which may lie before or after the cursor.
    pub fn byte_at(&self, at: usize) -> (b: u8)
        requires
            at < self.bytes().len(),
        ensures
            b == self.bytes()[at as int],
    {
        self.data[at]
    }

    /// Moves the cursor forward to `next`.
    pub fn advance_to(&mut self, next: usize)
        requires
            old(self).cursor() <= next <= old(self).bytes().len(),
        ensures
            final(self).bytes() == old(self).bytes(),
            final(self).cursor() == next,
    {
        self.pos = next;
    }

    /// Puts the cursor back where a rule began, after the rule failed.
    pub(crate) fn rewind_to(&mut self, start: usize)
        requires
            start <= old(self).cursor(),
        ensures
            final(self).bytes() == old(self).bytes(),
            final(self).cursor() == start,
    {
        proof {
            use_type_invariant(&*self);
        }
        self.pos = start;
    }
}

/// Ends a rule that began at `start` with the failure of one of its parts:
/// the cursor goes back to `start` and the failure is handed on.
pub(crate) fn give_up<A, B>(
    stream: &mut ByteStream,
    start: usize,
    failed: Decoded<A>,
) -> (out: Decoded<B>)
    requires
        !(failed is Done),
        start <= old(stream).cursor(),
    ensures
        final(stream).bytes() == old(stream).bytes(),
        final(stream).cursor() == start,
        failed is Suspend ==> out is Suspend,
        failed matches Decoded::Reject(why) ==> out == Decoded::<B>::Reject(why),
{
    stream.rewind_to(start);
    match failed {
        Decoded::Reject(why) => Decoded::Reject(why),
        _ => Decoded::Suspend,
    }
}

/// A rule met its specification on a stream: the received bytes are
/// untouched, the result is the one that `expected` names, and the cursor
/// moved, forward, exactly when the rule finished.
pub open spec fn delivers<T: View>(
    expected: Outcome<T::V>,
    before: ByteStream,
    after: ByteStream,
    got: Decoded<T>,
) -> bool {
    &&& after.bytes() == before.bytes()
    &&& before.cursor() <= after.cursor()
    &&& answers(expected, got)
    &&& after.cursor() == match expected {
        Outcome::Done { next, .. } => next,
        _ => before.cursor(),
    }
}

} // verus!
