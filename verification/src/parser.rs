//! The parsing capability contract that every terminal and combinator
//! implements.

use vstd::prelude::*;
use crate::buffer::Buffer;
use crate::ignore::Ignore;
use crate::mapped::Mapped;
use crate::repeat::Repeat;

verus! {

/// A parsing capability: attempt to consume a prefix of the remaining input
/// at the cursor's current position, producing a value of type `T` or a
/// failure of type `E`.
///
/// The contract carries the engine's global invariant. Every parse leaves the
/// source untouched, keeps the cursor within the source and never moves it
/// backwards past the entry position; and every capability for which
/// [`Parser::backtracks`] holds restores the cursor exactly to the entry
/// position before propagating a failure, so that a sibling alternative sees
/// the same starting point.
pub trait Parser<'a, T, E> {
    /// Whether a failed attempt is guaranteed to restore the cursor to its
    /// entry position. This holds for every capability of this crate except
    /// a [`Mapped`] whose transform turns a child success into a failure
    /// after input was already consumed. A capability implemented outside
    /// this crate makes no promise unless it overrides this.
    open spec fn backtracks(&self) -> bool {
        false
    }

    /// The parsing relation of this capability: which results and cursor
    /// movements a parse over source `src` may produce when it starts at
    /// position `entry` and stops at position `exit`. Each combinator of this
    /// crate defines it in terms of its children's relations, so a concrete
    /// grammar's behaviour can be read off compositionally. A capability
    /// implemented outside this crate relates everything unless it overrides
    /// this.
    open spec fn parsed(&self, src: Seq<char>, entry: int, exit: int, r: Result<T, E>) -> bool {
        true
    }

    fn parse(&self, buf: &mut Buffer<'a>) -> (r: Result<T, E>)
        requires
            old(buf).inv(),
        ensures
            final(buf).inv(),
            final(buf).src() == old(buf).src(),
            old(buf).pos() <= final(buf).pos(),
            self.backtracks() && r is Err ==> final(buf).pos() == old(buf).pos(),
            self.parsed(old(buf).src(), old(buf).pos(), final(buf).pos(), r),
    ;
}

impl<'a, T, E, P: Parser<'a, T, E>> Parser<'a, T, E> for &P {
    open spec fn backtracks(&self) -> bool {
        (**self).backtracks()
    }

    open spec fn parsed(&self, src: Seq<char>, entry: int, exit: int, r: Result<T, E>) -> bool {
        (**self).parsed(src, entry, exit, r)
    }

    fn parse(&self, buf: &mut Buffer<'a>) -> (r: Result<T, E>) {
        (*self).parse(buf)
    }
}

impl<'a, T, E, P: Parser<'a, T, E>> Parser<'a, T, E> for Box<P> {
    open spec fn backtracks(&self) -> bool {
        (**self).backtracks()
    }

    open spec fn parsed(&self, src: Seq<char>, entry: int, exit: int, r: Result<T, E>) -> bool {
        (**self).parsed(src, entry, exit, r)
    }

    fn parse(&self, buf: &mut Buffer<'a>) -> (r: Result<T, E>) {
        (**self).parse(buf)
    }
}

impl<'a, T, E, P: Parser<'a, T, E>> Parser<'a, T, E> for std::rc::Rc<P> {
    open spec fn backtracks(&self) -> bool {
        (**self).backtracks()
    }

    open spec fn parsed(&self, src: Seq<char>, entry: int, exit: int, r: Result<T, E>) -> bool {
        (**self).parsed(src, entry, exit, r)
    }

    fn parse(&self, buf: &mut Buffer<'a>) -> (r: Result<T, E>) {
        (**self).parse(buf)
    }
}

/// Convenience constructors for wrapping a capability in the transform
/// combinators, usable in method position on any capability.
pub trait ParserExt<'a, T, E>: Parser<'a, T, E> + Sized {
    /// Discards this capability's output, keeping only pass/fail.
    fn ignored(self) -> (r: Ignore<T, Self>)
        ensures
            r.inner() == self,
    {
        Ignore::new(self)
    }

    /// Applies a pure transform to this capability's raw result.
    fn map<T2, E2, F: Fn(Result<T, E>) -> Result<T2, E2>>(self, closure: F) -> (r: Mapped<
        'a,
        T2,
        E2,
        T,
        E,
        Self,
        F,
    >) where Self: Parser<'a, T, E>
        requires
            forall|x: Result<T, E>| call_requires(closure, (x,)),
        ensures
            r.prev() == self,
            r.transform() == closure,
    {
        Mapped::new(self, closure)
    }

    /// Moves this capability to the heap, which breaks up recursive grammar
    /// types.
    fn boxed(self) -> (r: Box<Self>)
        ensures
            *r == self,
    {
        Box::new(self)
    }

    /// Repeats this capability greedily, requiring at least `times`
    /// successes.
    fn repeated(self, times: usize) -> (r: Repeat<Self>)
        ensures
            r.inner() == self,
            r.min() == times,
    {
        Repeat::new(self, times)
    }
}

impl<'a, T, E, P: Parser<'a, T, E> + Sized> ParserExt<'a, T, E> for P {

}

} // verus!
