//! Bounded-below greedy repetition.

use vstd::prelude::*;
use crate::buffer::Buffer;
use crate::parser::Parser;

verus! {

/// The repeated child succeeded once per item of `items`, each repetition
/// starting where the previous one stopped: the first from `entry`, the last
/// stopping at `exit`.
pub open spec fn repeat_chain<'a, T, E, P: Parser<'a, T, E>>(
    p: P,
    src: Seq<char>,
    entry: int,
    exit: int,
    items: Seq<T>,
) -> bool
    decreases items.len(),
{
    if items.len() == 0 {
        exit == entry
    } else {
        exists|m: int|
            #[trigger] p.parsed(src, m, exit, Ok(items.last())) && repeat_chain(
                p,
                src,
                entry,
                m,
                items.drop_last(),
            )
    }
}

/// A run of fewer than `min` successes that ended in the child failing with
/// condition `e`.
pub open spec fn repeat_broke<'a, T, E, P: Parser<'a, T, E>>(
    p: P,
    min: int,
    src: Seq<char>,
    entry: int,
    e: E,
) -> bool {
    exists|items: Seq<T>, m: int, m2: int|
        {
            &&& items.len() < min
            &&& #[trigger] repeat_chain(p, src, entry, m, items)
            &&& #[trigger] p.parsed(src, m, m2, Err(e))
        }
}

/// Greedy repetition of one child capability with a minimum required count of
/// successful repetitions.
///
/// The child is attempted repeatedly, each attempt starting where the previous
/// one stopped; the first failed attempt ends the run (the cursor is restored
/// to the position before that attempt). Fewer successes than the minimum is
/// a failure, reported with the condition from the repetition that broke the
/// run and with the cursor restored to the entry position. There is no upper
/// bound; a minimum of zero means the repetition never fails for lack of
/// matches. One guard keeps the run finite: once the minimum is reached, a
/// successful repetition that consumed no input ends the run, since it would
/// otherwise repeat in place forever.
pub struct Repeat<P> {
    inner: P,
    min_count: usize,
}

impl<P> Repeat<P> {
    /// The repeated child capability.
    pub closed spec fn inner(&self) -> P {
        self.inner
    }

    /// The minimum required number of successful repetitions.
    pub closed spec fn min(&self) -> int {
        self.min_count as int
    }

    /// Builds a repetition of `parser` requiring at least `min_count`
    /// successes.
    pub fn new(parser: P, min_count: usize) -> (r: Self)
        ensures
            r.inner() == parser,
            r.min() == min_count,
    {
        Repeat { inner: parser, min_count }
    }
}

impl<'a, T, E, P: Parser<'a, T, E>> Parser<'a, Vec<T>, E> for Repeat<P> {
    open spec fn backtracks(&self) -> bool {
        true
    }

    open spec fn parsed(&self, src: Seq<char>, entry: int, exit: int, r: Result<Vec<T>, E>) -> bool {
        match r {
            Ok(v) => {
                &&& v@.len() >= self.min()
                &&& repeat_chain(self.inner(), src, entry, exit, v@)
                &&& ((exists|e: E, m: int| #[trigger] self.inner().parsed(src, exit, m, Err(e)))
                    || (v@.len() > 0 && self.inner().parsed(src, exit, exit, Ok(v@.last()))))
            },
            Err(e) => {
                &&& exit == entry
                &&& self.min() > 0
                &&& repeat_broke(self.inner(), self.min(), src, entry, e)
            },
        }
    }

    fn parse(&self, buf: &mut Buffer<'a>) -> (r: Result<Vec<T>, E>) {
        let mut out: Vec<T> = Vec::new();
        let entry = buf.index();
        loop
            invariant
                buf.inv(),
                buf.src() == old(buf).src(),
                entry == old(buf).pos(),
                entry <= buf.pos(),
                out@.len() == 0 ==> buf.pos() == entry,
                repeat_chain(self.inner(), old(buf).src(), entry as int, buf.pos(), out@),
            decreases
                buf.src().len() - buf.pos(),
                (if out@.len() < self.min() { self.min() - out@.len() } else { 0int }),
        {
            let attempt = buf.index();
            let ghost prefix = out@;
            match self.inner.parse(buf) {
                Ok(t) => {
                    out.push(t);
                    let after = buf.index();
                    proof {
                        assert(out@.drop_last() =~= prefix);
                        assert(self.inner().parsed(
                            old(buf).src(),
                            attempt as int,
                            after as int,
                            Ok(out@.last()),
                        ));
                        assert(repeat_chain(
                            self.inner(),
                            old(buf).src(),
                            entry as int,
                            after as int,
                            out@,
                        ));
                    }
                    if after == attempt && out.len() >= self.min_count {
                        return Ok(out);
                    }
                },
                Err(e) => {
                    let ghost failed_at = buf.pos();
                    proof {
                        assert(self.inner().parsed(
                            old(buf).src(),
                            attempt as int,
                            failed_at,
                            Err(e),
                        ));
                    }
                    if out.len() < self.min_count {
                        proof {
                            assert(repeat_chain(
                                self.inner(),
                                old(buf).src(),
                                entry as int,
                                attempt as int,
                                out@,
                            ));
                        }
                        buf.set_index(entry);
                        proof {
                            assert(repeat_broke(
                                self.inner(),
                                self.min(),
                                old(buf).src(),
                                old(buf).pos(),
                                e,
                            ));
                        }
                        return Err(e);
                    } else {
                        buf.set_index(attempt);
                        return Ok(out);
                    }
                },
            }
        }
    }
}

} // verus!
