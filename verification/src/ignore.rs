//! Discarding a child's payload while keeping its pass/fail outcome.

use vstd::prelude::*;
use core::marker::PhantomData;
use crate::buffer::Buffer;
use crate::parser::Parser;

verus! {

/// Wraps one child; a child success becomes a unit success and a child
/// failure is forwarded unchanged. The cursor moves exactly as the child
/// moves it.
pub struct Ignore<T, P> {
    inner: P,
    _phantom: PhantomData<T>,
}

impl<T, P> Ignore<T, P> {
    /// The wrapped child capability.
    pub closed spec fn inner(&self) -> P {
        self.inner
    }

    /// Builds an ignoring wrapper around `parser`.
    pub fn new(parser: P) -> (r: Self)
        ensures
            r.inner() == parser,
    {
        Ignore { inner: parser, _phantom: PhantomData }
    }
}

impl<'a, T, E, P: Parser<'a, T, E>> Parser<'a, (), E> for Ignore<T, P> {
    open spec fn backtracks(&self) -> bool {
        self.inner().backtracks()
    }

    open spec fn parsed(&self, src: Seq<char>, entry: int, exit: int, r: Result<(), E>) -> bool {
        match r {
            Ok(_) => exists|t: T| #[trigger] self.inner().parsed(src, entry, exit, Ok(t)),
            Err(e) => self.inner().parsed(src, entry, exit, Err(e)),
        }
    }

    fn parse(&self, buf: &mut Buffer<'a>) -> (r: Result<(), E>) {
        match self.inner.parse(buf) {
            Ok(t) => {
                proof {
                    assert(self.inner().parsed(old(buf).src(), old(buf).pos(), buf.pos(), Ok(t)));
                }
                Ok(())
            },
            Err(e) => Err(e),
        }
    }
}

} // verus!
