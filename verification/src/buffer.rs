//! The input cursor: an immutable view over the source text plus a mutable
//! read position, the unit of backtracking.

use vstd::prelude::*;
use vstd::string::StrSliceExecFns;

verus! {

/// A position-tracked view over a borrowed source text.
///
/// The position counts characters (not bytes) from the start of the source;
/// it never exceeds the source length. Combinators snapshot the position with
/// [`Buffer::index`] and restore it with [`Buffer::set_index`] to undo a
/// failed attempt.
pub struct Buffer<'a> {
    raw: &'a str,
    index: usize,
}

impl<'a> Buffer<'a> {
    /// The whole source text, as a sequence of characters.
    pub closed spec fn src(&self) -> Seq<char> {
        self.raw@
    }

    /// The current read position, as a character offset into `src`.
    pub closed spec fn pos(&self) -> int {
        self.index as int
    }

    /// The cursor is well-formed: the position lies within the source.
    pub open spec fn inv(&self) -> bool {
        0 <= self.pos() <= self.src().len()
    }

    /// The portion of the source that has not been consumed yet.
    pub open spec fn remaining_view(&self) -> Seq<char> {
        self.src().subrange(self.pos(), self.src().len() as int)
    }

    /// Builds a cursor over `raw`, positioned at its start.
    pub fn new(raw: &'a str) -> (r: Self)
        ensures
            r.src() == raw@,
            r.pos() == 0,
            r.inv(),
    {
        Buffer { raw, index: 0 }
    }

    /// The sub-span of the source from the current position to its end.
    pub fn remaining(&self) -> (r: &'a str)
        requires
            self.inv(),
        ensures
            r@ == self.remaining_view(),
    {
        let n = self.raw.unicode_len();
        self.raw.substring_char(self.index, n)
    }

    /// Moves the position forward by `to_add` characters. Advancing past the
    /// end of the source is a programming error, excluded by precondition.
    pub fn add_offset(&mut self, to_add: usize)
        requires
            old(self).inv(),
            old(self).pos() + to_add <= old(self).src().len(),
        ensures
            final(self).src() == old(self).src(),
            final(self).pos() == old(self).pos() + to_add,
            final(self).inv(),
    {
        let n = self.raw.unicode_len();
        assert(self.index + to_add <= n);
        self.index = self.index + to_add;
    }

    /// The length of the whole source, in characters.
    pub fn len(&self) -> (r: usize)
        ensures
            r == self.src().len(),
    {
        self.raw.unicode_len()
    }

    /// Snapshots the current position.
    pub fn index(&self) -> (r: usize)
        ensures
            r == self.pos(),
    {
        self.index
    }

    /// Restores the position to an earlier snapshot (or to any position
    /// within the source).
    pub fn set_index(&mut self, index: usize)
        requires
            index <= old(self).src().len(),
        ensures
            final(self).src() == old(self).src(),
            final(self).pos() == index,
            final(self).inv(),
    {
        self.index = index;
    }
}

} // verus!
