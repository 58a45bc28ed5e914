//! Ordered disjunction with error aggregation.

use vstd::prelude::*;
use crate::buffer::Buffer;
use crate::parser::Parser;

verus! {

/// Ordered choice over a tuple of alternatives that share one output type.
///
/// Alternatives are tried strictly in declaration order, each from the
/// choice's entry position; the first success wins and later alternatives are
/// never attempted, even if one of them would consume more input. When every
/// alternative fails, the failure carries the ordered collection of every
/// alternative's failure condition, one per alternative, so the caller keeps
/// the full diagnostic context. The parsing relation of each arity says so:
/// a success is the first succeeding alternative's own result, with evidence
/// that every earlier alternative failed from the entry position, and a
/// failure pairs each alternative with its own cause, in declaration order.
pub struct Choice<Tup> {
    choices: Tup,
}

impl<Tup> Choice<Tup> {
    /// The alternatives, in declaration order.
    pub closed spec fn elems(&self) -> Tup {
        self.choices
    }

    /// Builds an ordered choice from a tuple of alternatives.
    pub fn new(parsers: Tup) -> (r: Self)
        ensures
            r.elems() == parsers,
    {
        Choice { choices: parsers }
    }
}

/// Assembles a [`Choice`] out of a tuple of capabilities, written
/// `(&a, &b).any()` over borrowed alternatives.
pub trait ParserExt3<'a, E, T>: Sized {
    fn any(self) -> (r: Choice<Self>)
        ensures
            r.elems() == self,
    ;
}

/// The first alternative capable of succeeding from `entry` produced the
/// result: every alternative before it failed there, and the ones after it
/// were never attempted.
pub open spec fn choice2_won<'a, T, E, P1, P2>(
    parsers: (P1, P2),
    src: Seq<char>,
    entry: int,
    exit: int,
    t: T,
) -> bool where
    P1: Parser<'a, T, E>,
    P2: Parser<'a, T, E>,
 {
    (parsers.0.parsed(src, entry, exit, Ok(t)))
        || ((exists|cause: E, fpos: int| #[trigger] parsers.0.parsed(src, entry, fpos, Err(cause))) && parsers.1.parsed(src, entry, exit, Ok(t)))
}

/// Every alternative was attempted from `entry` and failed; `es` pairs each
/// alternative with its own failure condition, in declaration order.
pub open spec fn choice2_all_failed<'a, T, E, P1, P2>(
    parsers: (P1, P2),
    src: Seq<char>,
    entry: int,
    es: Seq<E>,
) -> bool where
    P1: Parser<'a, T, E>,
    P2: Parser<'a, T, E>,
 {
    es.len() == 2 && (exists|fpos: int| #[trigger] parsers.0.parsed(src, entry, fpos, Err(es[0])))
        && (exists|fpos: int| #[trigger] parsers.1.parsed(src, entry, fpos, Err(es[1])))
}

impl<'a, T, E, P1, P2> Parser<'a, T, Vec<E>> for Choice<(P1, P2)> where
    P1: Parser<'a, T, E>,
    P2: Parser<'a, T, E>,
 {
    open spec fn backtracks(&self) -> bool {
        true
    }

    open spec fn parsed(&self, src: Seq<char>, entry: int, exit: int, r: Result<T, Vec<E>>) -> bool {
        match r {
            Ok(t) => choice2_won(self.elems(), src, entry, exit, t),
            Err(es) => exit == entry && choice2_all_failed(self.elems(), src, entry, es@),
        }
    }

    fn parse(&self, buf: &mut Buffer<'a>) -> (r: Result<T, Vec<E>>) {
        let entry = buf.index();
        let mut errs: Vec<E> = Vec::new();
        let ghost mut fail1: int = 0;
        let ghost mut fail2: int = 0;
        match self.choices.0.parse(buf) {
            Ok(t) => {
                proof {
                    assert(self.choices.0.parsed(old(buf).src(), old(buf).pos(), buf.pos(), Ok(
                    t)));
                    assert(choice2_won(self.elems(), old(buf).src(), old(buf).pos(), buf.pos(), t));
                }
                return Ok(t);
            },
            Err(e) => {
                proof {
                    fail1 = buf.pos();
                }
                errs.push(e);
                buf.set_index(entry);
            },
        }
        match self.choices.1.parse(buf) {
            Ok(t) => {
                proof {
                    assert(self.choices.1.parsed(old(buf).src(), old(buf).pos(), buf.pos(), Ok(
                    t)));
                    assert(choice2_won(self.elems(), old(buf).src(), old(buf).pos(), buf.pos(), t));
                }
                return Ok(t);
            },
            Err(e) => {
                proof {
                    fail2 = buf.pos();
                }
                errs.push(e);
                buf.set_index(entry);
            },
        }
        proof {
            assert(self.choices.0.parsed(old(buf).src(), old(buf).pos(), fail1, Err(errs@[0])));
            assert(self.choices.1.parsed(old(buf).src(), old(buf).pos(), fail2, Err(errs@[1])));
            assert(choice2_all_failed(self.elems(), old(buf).src(), old(buf).pos(), errs@));
        }
        Err(errs)
    }
}

impl<'a, T, E, P1, P2> ParserExt3<'a, Vec<E>, T> for (P1, P2) where
    P1: Parser<'a, T, E>,
    P2: Parser<'a, T, E>,
 {
    fn any(self) -> (r: Choice<Self>) {
        Choice::new(self)
    }
}

/// The first alternative capable of succeeding from `entry` produced the
/// result: every alternative before it failed there, and the ones after it
/// were never attempted.
pub open spec fn choice3_won<'a, T, E, P1, P2, P3>(
    parsers: (P1, P2, P3),
    src: Seq<char>,
    entry: int,
    exit: int,
    t: T,
) -> bool where
    P1: Parser<'a, T, E>,
    P2: Parser<'a, T, E>,
    P3: Parser<'a, T, E>,
 {
    (parsers.0.parsed(src, entry, exit, Ok(t)))
        || ((exists|cause: E, fpos: int| #[trigger] parsers.0.parsed(src, entry, fpos, Err(cause))) && parsers.1.parsed(src, entry, exit, Ok(t)))
        || ((exists|cause: E, fpos: int| #[trigger] parsers.0.parsed(src, entry, fpos, Err(cause))) && (exists|cause: E, fpos: int| #[trigger] parsers.1.parsed(src, entry, fpos, Err(cause))) && parsers.2.parsed(src, entry, exit, Ok(t)))
}

/// Every alternative was attempted from `entry` and failed; `es` pairs each
/// alternative with its own failure condition, in declaration order.
pub open spec fn choice3_all_failed<'a, T, E, P1, P2, P3>(
    parsers: (P1, P2, P3),
    src: Seq<char>,
    entry: int,
    es: Seq<E>,
) -> bool where
    P1: Parser<'a, T, E>,
    P2: Parser<'a, T, E>,
    P3: Parser<'a, T, E>,
 {
    es.len() == 3 && (exists|fpos: int| #[trigger] parsers.0.parsed(src, entry, fpos, Err(es[0])))
        && (exists|fpos: int| #[trigger] parsers.1.parsed(src, entry, fpos, Err(es[1])))
        && (exists|fpos: int| #[trigger] parsers.2.parsed(src, entry, fpos, Err(es[2])))
}

impl<'a, T, E, P1, P2, P3> Parser<'a, T, Vec<E>> for Choice<(P1, P2, P3)> where
    P1: Parser<'a, T, E>,
    P2: Parser<'a, T, E>,
    P3: Parser<'a, T, E>,
 {
    open spec fn backtracks(&self) -> bool {
        true
    }

    open spec fn parsed(&self, src: Seq<char>, entry: int, exit: int, r: Result<T, Vec<E>>) -> bool {
        match r {
            Ok(t) => choice3_won(self.elems(), src, entry, exit, t),
            Err(es) => exit == entry && choice3_all_failed(self.elems(), src, entry, es@),
        }
    }

    fn parse(&self, buf: &mut Buffer<'a>) -> (r: Result<T, Vec<E>>) {
        let entry = buf.index();
        let mut errs: Vec<E> = Vec::new();
        let ghost mut fail1: int = 0;
        let ghost mut fail2: int = 0;
        let ghost mut fail3: int = 0;
        match self.choices.0.parse(buf) {
            Ok(t) => {
                proof {
                    assert(self.choices.0.parsed(old(buf).src(), old(buf).pos(), buf.pos(), Ok(
                    t)));
                    assert(choice3_won(self.elems(), old(buf).src(), old(buf).pos(), buf.pos(), t));
                }
                return Ok(t);
            },
            Err(e) => {
                proof {
                    fail1 = buf.pos();
                }
                errs.push(e);
                buf.set_index(entry);
            },
        }
        match self.choices.1.parse(buf) {
            Ok(t) => {
                proof {
                    assert(self.choices.1.parsed(old(buf).src(), old(buf).pos(), buf.pos(), Ok(
                    t)));
                    assert(choice3_won(self.elems(), old(buf).src(), old(buf).pos(), buf.pos(), t));
                }
                return Ok(t);
            },
            Err(e) => {
                proof {
                    fail2 = buf.pos();
                }
                errs.push(e);
                buf.set_index(entry);
            },
        }
        match self.choices.2.parse(buf) {
            Ok(t) => {
                proof {
                    assert(self.choices.2.parsed(old(buf).src(), old(buf).pos(), buf.pos(), Ok(
                    t)));
                    assert(choice3_won(self.elems(), old(buf).src(), old(buf).pos(), buf.pos(), t));
                }
                return Ok(t);
            },
            Err(e) => {
                proof {
                    fail3 = buf.pos();
                }
                errs.push(e);
                buf.set_index(entry);
            },
        }
        proof {
            assert(self.choices.0.parsed(old(buf).src(), old(buf).pos(), fail1, Err(errs@[0])));
            assert(self.choices.1.parsed(old(buf).src(), old(buf).pos(), fail2, Err(errs@[1])));
            assert(self.choices.2.parsed(old(buf).src(), old(buf).pos(), fail3, Err(errs@[2])));
            assert(choice3_all_failed(self.elems(), old(buf).src(), old(buf).pos(), errs@));
        }
        Err(errs)
    }
}

impl<'a, T, E, P1, P2, P3> ParserExt3<'a, Vec<E>, T> for (P1, P2, P3) where
    P1: Parser<'a, T, E>,
    P2: Parser<'a, T, E>,
    P3: Parser<'a, T, E>,
 {
    fn any(self) -> (r: Choice<Self>) {
        Choice::new(self)
    }
}

/// The first alternative capable of succeeding from `entry` produced the
/// result: every alternative before it failed there, and the ones after it
/// were never attempted.
pub open spec fn choice4_won<'a, T, E, P1, P2, P3, P4>(
    parsers: (P1, P2, P3, P4),
    src: Seq<char>,
    entry: int,
    exit: int,
    t: T,
) -> bool where
    P1: Parser<'a, T, E>,
    P2: Parser<'a, T, E>,
    P3: Parser<'a, T, E>,
    P4: Parser<'a, T, E>,
 {
    (parsers.0.parsed(src, entry, exit, Ok(t)))
        || ((exists|cause: E, fpos: int| #[trigger] parsers.0.parsed(src, entry, fpos, Err(cause))) && parsers.1.parsed(src, entry, exit, Ok(t)))
        || ((exists|cause: E, fpos: int| #[trigger] parsers.0.parsed(src, entry, fpos, Err(cause))) && (exists|cause: E, fpos: int| #[trigger] parsers.1.parsed(src, entry, fpos, Err(cause))) && parsers.2.parsed(src, entry, exit, Ok(t)))
        || ((exists|cause: E, fpos: int| #[trigger] parsers.0.parsed(src, entry, fpos, Err(cause))) && (exists|cause: E, fpos: int| #[trigger] parsers.1.parsed(src, entry, fpos, Err(cause))) && (exists|cause: E, fpos: int| #[trigger] parsers.2.parsed(src, entry, fpos, Err(cause))) && parsers.3.parsed(src, entry, exit, Ok(t)))
}

/// Every alternative was attempted from `entry` and failed; `es` pairs each
/// alternative with its own failure condition, in declaration order.
pub open spec fn choice4_all_failed<'a, T, E, P1, P2, P3, P4>(
    parsers: (P1, P2, P3, P4),
    src: Seq<char>,
    entry: int,
    es: Seq<E>,
) -> bool where
    P1: Parser<'a, T, E>,
    P2: Parser<'a, T, E>,
    P3: Parser<'a, T, E>,
    P4: Parser<'a, T, E>,
 {
    es.len() == 4 && (exists|fpos: int| #[trigger] parsers.0.parsed(src, entry, fpos, Err(es[0])))
        && (exists|fpos: int| #[trigger] parsers.1.parsed(src, entry, fpos, Err(es[1])))
        && (exists|fpos: int| #[trigger] parsers.2.parsed(src, entry, fpos, Err(es[2])))
        && (exists|fpos: int| #[trigger] parsers.3.parsed(src, entry, fpos, Err(es[3])))
}

impl<'a, T, E, P1, P2, P3, P4> Parser<'a, T, Vec<E>> for Choice<(P1, P2, P3, P4)> where
    P1: Parser<'a, T, E>,
    P2: Parser<'a, T, E>,
    P3: Parser<'a, T, E>,
    P4: Parser<'a, T, E>,
 {
    open spec fn backtracks(&self) -> bool {
        true
    }

    open spec fn parsed(&self, src: Seq<char>, entry: int, exit: int, r: Result<T, Vec<E>>) -> bool {
        match r {
            Ok(t) => choice4_won(self.elems(), src, entry, exit, t),
            Err(es) => exit == entry && choice4_all_failed(self.elems(), src, entry, es@),
        }
    }

    fn parse(&self, buf: &mut Buffer<'a>) -> (r: Result<T, Vec<E>>) {
        let entry = buf.index();
        let mut errs: Vec<E> = Vec::new();
        let ghost mut fail1: int = 0;
        let ghost mut fail2: int = 0;
        let ghost mut fail3: int = 0;
        let ghost mut fail4: int = 0;
        match self.choices.0.parse(buf) {
            Ok(t) => {
                proof {
                    assert(self.choices.0.parsed(old(buf).src(), old(buf).pos(), buf.pos(), Ok(
                    t)));
                    assert(choice4_won(self.elems(), old(buf).src(), old(buf).pos(), buf.pos(), t));
                }
                return Ok(t);
            },
            Err(e) => {
                proof {
                    fail1 = buf.pos();
                }
                errs.push(e);
                buf.set_index(entry);
            },
        }
        match self.choices.1.parse(buf) {
            Ok(t) => {
                proof {
                    assert(self.choices.1.parsed(old(buf).src(), old(buf).pos(), buf.pos(), Ok(
                    t)));
                    assert(choice4_won(self.elems(), old(buf).src(), old(buf).pos(), buf.pos(), t));
                }
                return Ok(t);
            },
            Err(e) => {
                proof {
                    fail2 = buf.pos();
                }
                errs.push(e);
                buf.set_index(entry);
            },
        }
        match self.choices.2.parse(buf) {
            Ok(t) => {
                proof {
                    assert(self.choices.2.parsed(old(buf).src(), old(buf).pos(), buf.pos(), Ok(
                    t)));
                    assert(choice4_won(self.elems(), old(buf).src(), old(buf).pos(), buf.pos(), t));
                }
                return Ok(t);
            },
            Err(e) => {
                proof {
                    fail3 = buf.pos();
                }
                errs.push(e);
                buf.set_index(entry);
            },
        }
        match self.choices.3.parse(buf) {
            Ok(t) => {
                proof {
                    assert(self.choices.3.parsed(old(buf).src(), old(buf).pos(), buf.pos(), Ok(
                    t)));
                    assert(choice4_won(self.elems(), old(buf).src(), old(buf).pos(), buf.pos(), t));
                }
                return Ok(t);
            },
            Err(e) => {
                proof {
                    fail4 = buf.pos();
                }
                errs.push(e);
                buf.set_index(entry);
            },
        }
        proof {
            assert(self.choices.0.parsed(old(buf).src(), old(buf).pos(), fail1, Err(errs@[0])));
            assert(self.choices.1.parsed(old(buf).src(), old(buf).pos(), fail2, Err(errs@[1])));
            assert(self.choices.2.parsed(old(buf).src(), old(buf).pos(), fail3, Err(errs@[2])));
            assert(self.choices.3.parsed(old(buf).src(), old(buf).pos(), fail4, Err(errs@[3])));
            assert(choice4_all_failed(self.elems(), old(buf).src(), old(buf).pos(), errs@));
        }
        Err(errs)
    }
}

impl<'a, T, E, P1, P2, P3, P4> ParserExt3<'a, Vec<E>, T> for (P1, P2, P3, P4) where
    P1: Parser<'a, T, E>,
    P2: Parser<'a, T, E>,
    P3: Parser<'a, T, E>,
    P4: Parser<'a, T, E>,
 {
    fn any(self) -> (r: Choice<Self>) {
        Choice::new(self)
    }
}

/// The first alternative capable of succeeding from `entry` produced the
/// result: every alternative before it failed there, and the ones after it
/// were never attempted.
pub open spec fn choice5_won<'a, T, E, P1, P2, P3, P4, P5>(
    parsers: (P1, P2, P3, P4, P5),
    src: Seq<char>,
    entry: int,
    exit: int,
    t: T,
) -> bool where
    P1: Parser<'a, T, E>,
    P2: Parser<'a, T, E>,
    P3: Parser<'a, T, E>,
    P4: Parser<'a, T, E>,
    P5: Parser<'a, T, E>,
 {
    (parsers.0.parsed(src, entry, exit, Ok(t)))
        || ((exists|cause: E, fpos: int| #[trigger] parsers.0.parsed(src, entry, fpos, Err(cause))) && parsers.1.parsed(src, entry, exit, Ok(t)))
        || ((exists|cause: E, fpos: int| #[trigger] parsers.0.parsed(src, entry, fpos, Err(cause))) && (exists|cause: E, fpos: int| #[trigger] parsers.1.parsed(src, entry, fpos, Err(cause))) && parsers.2.parsed(src, entry, exit, Ok(t)))
        || ((exists|cause: E, fpos: int| #[trigger] parsers.0.parsed(src, entry, fpos, Err(cause))) && (exists|cause: E, fpos: int| #[trigger] parsers.1.parsed(src, entry, fpos, Err(cause))) && (exists|cause: E, fpos: int| #[trigger] parsers.2.parsed(src, entry, fpos, Err(cause))) && parsers.3.parsed(src, entry, exit, Ok(t)))
        || ((exists|cause: E, fpos: int| #[trigger] parsers.0.parsed(src, entry, fpos, Err(cause))) && (exists|cause: E, fpos: int| #[trigger] parsers.1.parsed(src, entry, fpos, Err(cause))) && (exists|cause: E, fpos: int| #[trigger] parsers.2.parsed(src, entry, fpos, Err(cause))) && (exists|cause: E, fpos: int| #[trigger] parsers.3.parsed(src, entry, fpos, Err(cause))) && parsers.4.parsed(src, entry, exit, Ok(t)))
}

/// Every alternative was attempted from `entry` and failed; `es` pairs each
/// alternative with its own failure condition, in declaration order.
pub open spec fn choice5_all_failed<'a, T, E, P1, P2, P3, P4, P5>(
    parsers: (P1, P2, P3, P4, P5),
    src: Seq<char>,
    entry: int,
    es: Seq<E>,
) -> bool where
    P1: Parser<'a, T, E>,
    P2: Parser<'a, T, E>,
    P3: Parser<'a, T, E>,
    P4: Parser<'a, T, E>,
    P5: Parser<'a, T, E>,
 {
    es.len() == 5 && (exists|fpos: int| #[trigger] parsers.0.parsed(src, entry, fpos, Err(es[0])))
        && (exists|fpos: int| #[trigger] parsers.1.parsed(src, entry, fpos, Err(es[1])))
        && (exists|fpos: int| #[trigger] parsers.2.parsed(src, entry, fpos, Err(es[2])))
        && (exists|fpos: int| #[trigger] parsers.3.parsed(src, entry, fpos, Err(es[3])))
        && (exists|fpos: int| #[trigger] parsers.4.parsed(src, entry, fpos, Err(es[4])))
}

impl<'a, T, E, P1, P2, P3, P4, P5> Parser<'a, T, Vec<E>> for Choice<(P1, P2, P3, P4, P5)> where
    P1: Parser<'a, T, E>,
    P2: Parser<'a, T, E>,
    P3: Parser<'a, T, E>,
    P4: Parser<'a, T, E>,
    P5: Parser<'a, T, E>,
 {
    open spec fn backtracks(&self) -> bool {
        true
    }

    open spec fn parsed(&self, src: Seq<char>, entry: int, exit: int, r: Result<T, Vec<E>>) -> bool {
        match r {
            Ok(t) => choice5_won(self.elems(), src, entry, exit, t),
            Err(es) => exit == entry && choice5_all_failed(self.elems(), src, entry, es@),
        }
    }

    fn parse(&self, buf: &mut Buffer<'a>) -> (r: Result<T, Vec<E>>) {
        let entry = buf.index();
        let mut errs: Vec<E> = Vec::new();
        let ghost mut fail1: int = 0;
        let ghost mut fail2: int = 0;
        let ghost mut fail3: int = 0;
        let ghost mut fail4: int = 0;
        let ghost mut fail5: int = 0;
        match self.choices.0.parse(buf) {
            Ok(t) => {
                proof {
                    assert(self.choices.0.parsed(old(buf).src(), old(buf).pos(), buf.pos(), Ok(
                    t)));
                    assert(choice5_won(self.elems(), old(buf).src(), old(buf).pos(), buf.pos(), t));
                }
                return Ok(t);
            },
            Err(e) => {
                proof {
                    fail1 = buf.pos();
                }
                errs.push(e);
                buf.set_index(entry);
            },
        }
        match self.choices.1.parse(buf) {
            Ok(t) => {
                proof {
                    assert(self.choices.1.parsed(old(buf).src(), old(buf).pos(), buf.pos(), Ok(
                    t)));
                    assert(choice5_won(self.elems(), old(buf).src(), old(buf).pos(), buf.pos(), t));
                }
                return Ok(t);
            },
            Err(e) => {
                proof {
                    fail2 = buf.pos();
                }
                errs.push(e);
                buf.set_index(entry);
            },
        }
        match self.choices.2.parse(buf) {
            Ok(t) => {
                proof {
                    assert(self.choices.2.parsed(old(buf).src(), old(buf).pos(), buf.pos(), Ok(
                    t)));
                    assert(choice5_won(self.elems(), old(buf).src(), old(buf).pos(), buf.pos(), t));
                }
                return Ok(t);
            },
            Err(e) => {
                proof {
                    fail3 = buf.pos();
                }
                errs.push(e);
                buf.set_index(entry);
            },
        }
        match self.choices.3.parse(buf) {
            Ok(t) => {
                proof {
                    assert(self.choices.3.parsed(old(buf).src(), old(buf).pos(), buf.pos(), Ok(
                    t)));
                    assert(choice5_won(self.elems(), old(buf).src(), old(buf).pos(), buf.pos(), t));
                }
                return Ok(t);
            },
            Err(e) => {
                proof {
                    fail4 = buf.pos();
                }
                errs.push(e);
                buf.set_index(entry);
            },
        }
        match self.choices.4.parse(buf) {
            Ok(t) => {
                proof {
                    assert(self.choices.4.parsed(old(buf).src(), old(buf).pos(), buf.pos(), Ok(
                    t)));
                    assert(choice5_won(self.elems(), old(buf).src(), old(buf).pos(), buf.pos(), t));
                }
                return Ok(t);
            },
            Err(e) => {
                proof {
                    fail5 = buf.pos();
                }
                errs.push(e);
                buf.set_index(entry);
            },
        }
        proof {
            assert(self.choices.0.parsed(old(buf).src(), old(buf).pos(), fail1, Err(errs@[0])));
            assert(self.choices.1.parsed(old(buf).src(), old(buf).pos(), fail2, Err(errs@[1])));
            assert(self.choices.2.parsed(old(buf).src(), old(buf).pos(), fail3, Err(errs@[2])));
            assert(self.choices.3.parsed(old(buf).src(), old(buf).pos(), fail4, Err(errs@[3])));
            assert(self.choices.4.parsed(old(buf).src(), old(buf).pos(), fail5, Err(errs@[4])));
            assert(choice5_all_failed(self.elems(), old(buf).src(), old(buf).pos(), errs@));
        }
        Err(errs)
    }
}

impl<'a, T, E, P1, P2, P3, P4, P5> ParserExt3<'a, Vec<E>, T> for (P1, P2, P3, P4, P5) where
    P1: Parser<'a, T, E>,
    P2: Parser<'a, T, E>,
    P3: Parser<'a, T, E>,
    P4: Parser<'a, T, E>,
    P5: Parser<'a, T, E>,
 {
    fn any(self) -> (r: Choice<Self>) {
        Choice::new(self)
    }
}

/// The first alternative capable of succeeding from `entry` produced the
/// result: every alternative before it failed there, and the ones after it
/// were never attempted.
pub open spec fn choice6_won<'a, T, E, P1, P2, P3, P4, P5, P6>(
    parsers: (P1, P2, P3, P4, P5, P6),
    src: Seq<char>,
    entry: int,
    exit: int,
    t: T,
) -> bool where
    P1: Parser<'a, T, E>,
    P2: Parser<'a, T, E>,
    P3: Parser<'a, T, E>,
    P4: Parser<'a, T, E>,
    P5: Parser<'a, T, E>,
    P6: Parser<'a, T, E>,
 {
    (parsers.0.parsed(src, entry, exit, Ok(t)))
        || ((exists|cause: E, fpos: int| #[trigger] parsers.0.parsed(src, entry, fpos, Err(cause))) && parsers.1.parsed(src, entry, exit, Ok(t)))
        || ((exists|cause: E, fpos: int| #[trigger] parsers.0.parsed(src, entry, fpos, Err(cause))) && (exists|cause: E, fpos: int| #[trigger] parsers.1.parsed(src, entry, fpos, Err(cause))) && parsers.2.parsed(src, entry, exit, Ok(t)))
        || ((exists|cause: E, fpos: int| #[trigger] parsers.0.parsed(src, entry, fpos, Err(cause))) && (exists|cause: E, fpos: int| #[trigger] parsers.1.parsed(src, entry, fpos, Err(cause))) && (exists|cause: E, fpos: int| #[trigger] parsers.2.parsed(src, entry, fpos, Err(cause))) && parsers.3.parsed(src, entry, exit, Ok(t)))
        || ((exists|cause: E, fpos: int| #[trigger] parsers.0.parsed(src, entry, fpos, Err(cause))) && (exists|cause: E, fpos: int| #[trigger] parsers.1.parsed(src, entry, fpos, Err(cause))) && (exists|cause: E, fpos: int| #[trigger] parsers.2.parsed(src, entry, fpos, Err(cause))) && (exists|cause: E, fpos: int| #[trigger] parsers.3.parsed(src, entry, fpos, Err(cause))) && parsers.4.parsed(src, entry, exit, Ok(t)))
        || ((exists|cause: E, fpos: int| #[trigger] parsers.0.parsed(src, entry, fpos, Err(cause))) && (exists|cause: E, fpos: int| #[trigger] parsers.1.parsed(src, entry, fpos, Err(cause))) && (exists|cause: E, fpos: int| #[trigger] parsers.2.parsed(src, entry, fpos, Err(cause))) && (exists|cause: E, fpos: int| #[trigger] parsers.3.parsed(src, entry, fpos, Err(cause))) && (exists|cause: E, fpos: int| #[trigger] parsers.4.parsed(src, entry, fpos, Err(cause))) && parsers.5.parsed(src, entry, exit, Ok(t)))
}

/// Every alternative was attempted from `entry` and failed; `es` pairs each
/// alternative with its own failure condition, in declaration order.
pub open spec fn choice6_all_failed<'a, T, E, P1, P2, P3, P4, P5, P6>(
    parsers: (P1, P2, P3, P4, P5, P6),
    src: Seq<char>,
    entry: int,
    es: Seq<E>,
) -> bool where
    P1: Parser<'a, T, E>,
    P2: Parser<'a, T, E>,
    P3: Parser<'a, T, E>,
    P4: Parser<'a, T, E>,
    P5: Parser<'a, T, E>,
    P6: Parser<'a, T, E>,
 {
    es.len() == 6 && (exists|fpos: int| #[trigger] parsers.0.parsed(src, entry, fpos, Err(es[0])))
        && (exists|fpos: int| #[trigger] parsers.1.parsed(src, entry, fpos, Err(es[1])))
        && (exists|fpos: int| #[trigger] parsers.2.parsed(src, entry, fpos, Err(es[2])))
        && (exists|fpos: int| #[trigger] parsers.3.parsed(src, entry, fpos, Err(es[3])))
        && (exists|fpos: int| #[trigger] parsers.4.parsed(src, entry, fpos, Err(es[4])))
        && (exists|fpos: int| #[trigger] parsers.5.parsed(src, entry, fpos, Err(es[5])))
}

impl<'a, T, E, P1, P2, P3, P4, P5, P6> Parser<'a, T, Vec<E>> for Choice<(P1, P2, P3, P4, P5, P6)> where
    P1: Parser<'a, T, E>,
    P2: Parser<'a, T, E>,
    P3: Parser<'a, T, E>,
    P4: Parser<'a, T, E>,
    P5: Parser<'a, T, E>,
    P6: Parser<'a, T, E>,
 {
    open spec fn backtracks(&self) -> bool {
        true
    }

    open spec fn parsed(&self, src: Seq<char>, entry: int, exit: int, r: Result<T, Vec<E>>) -> bool {
        match r {
            Ok(t) => choice6_won(self.elems(), src, entry, exit, t),
            Err(es) => exit == entry && choice6_all_failed(self.elems(), src, entry, es@),
        }
    }

    fn parse(&self, buf: &mut Buffer<'a>) -> (r: Result<T, Vec<E>>) {
        let entry = buf.index();
        let mut errs: Vec<E> = Vec::new();
        let ghost mut fail1: int = 0;
        let ghost mut fail2: int = 0;
        let ghost mut fail3: int = 0;
        let ghost mut fail4: int = 0;
        let ghost mut fail5: int = 0;
        let ghost mut fail6: int = 0;
        match self.choices.0.parse(buf) {
            Ok(t) => {
                proof {
                    assert(self.choices.0.parsed(old(buf).src(), old(buf).pos(), buf.pos(), Ok(
                    t)));
                    assert(choice6_won(self.elems(), old(buf).src(), old(buf).pos(), buf.pos(), t));
                }
                return Ok(t);
            },
            Err(e) => {
                proof {
                    fail1 = buf.pos();
                }
                errs.push(e);
                buf.set_index(entry);
            },
        }
        match self.choices.1.parse(buf) {
            Ok(t) => {
                proof {
                    assert(self.choices.1.parsed(old(buf).src(), old(buf).pos(), buf.pos(), Ok(
                    t)));
                    assert(choice6_won(self.elems(), old(buf).src(), old(buf).pos(), buf.pos(), t));
                }
                return Ok(t);
            },
            Err(e) => {
                proof {
                    fail2 = buf.pos();
                }
                errs.push(e);
                buf.set_index(entry);
            },
        }
        match self.choices.2.parse(buf) {
            Ok(t) => {
                proof {
                    assert(self.choices.2.parsed(old(buf).src(), old(buf).pos(), buf.pos(), Ok(
                    t)));
                    assert(choice6_won(self.elems(), old(buf).src(), old(buf).pos(), buf.pos(), t));
                }
                return Ok(t);
            },
            Err(e) => {
                proof {
                    fail3 = buf.pos();
                }
                errs.push(e);
                buf.set_index(entry);
            },
        }
        match self.choices.3.parse(buf) {
            Ok(t) => {
                proof {
                    assert(self.choices.3.parsed(old(buf).src(), old(buf).pos(), buf.pos(), Ok(
                    t)));
                    assert(choice6_won(self.elems(), old(buf).src(), old(buf).pos(), buf.pos(), t));
                }
                return Ok(t);
            },
            Err(e) => {
                proof {
                    fail4 = buf.pos();
                }
                errs.push(e);
                buf.set_index(entry);
            },
        }
        match self.choices.4.parse(buf) {
            Ok(t) => {
                proof {
                    assert(self.choices.4.parsed(old(buf).src(), old(buf).pos(), buf.pos(), Ok(
                    t)));
                    assert(choice6_won(self.elems(), old(buf).src(), old(buf).pos(), buf.pos(), t));
                }
                return Ok(t);
            },
            Err(e) => {
                proof {
                    fail5 = buf.pos();
                }
                errs.push(e);
                buf.set_index(entry);
            },
        }
        match self.choices.5.parse(buf) {
            Ok(t) => {
                proof {
                    assert(self.choices.5.parsed(old(buf).src(), old(buf).pos(), buf.pos(), Ok(
                    t)));
                    assert(choice6_won(self.elems(), old(buf).src(), old(buf).pos(), buf.pos(), t));
                }
                return Ok(t);
            },
            Err(e) => {
                proof {
                    fail6 = buf.pos();
                }
                errs.push(e);
                buf.set_index(entry);
            },
        }
        proof {
            assert(self.choices.0.parsed(old(buf).src(), old(buf).pos(), fail1, Err(errs@[0])));
            assert(self.choices.1.parsed(old(buf).src(), old(buf).pos(), fail2, Err(errs@[1])));
            assert(self.choices.2.parsed(old(buf).src(), old(buf).pos(), fail3, Err(errs@[2])));
            assert(self.choices.3.parsed(old(buf).src(), old(buf).pos(), fail4, Err(errs@[3])));
            assert(self.choices.4.parsed(old(buf).src(), old(buf).pos(), fail5, Err(errs@[4])));
            assert(self.choices.5.parsed(old(buf).src(), old(buf).pos(), fail6, Err(errs@[5])));
            assert(choice6_all_failed(self.elems(), old(buf).src(), old(buf).pos(), errs@));
        }
        Err(errs)
    }
}

impl<'a, T, E, P1, P2, P3, P4, P5, P6> ParserExt3<'a, Vec<E>, T> for (P1, P2, P3, P4, P5, P6) where
    P1: Parser<'a, T, E>,
    P2: Parser<'a, T, E>,
    P3: Parser<'a, T, E>,
    P4: Parser<'a, T, E>,
    P5: Parser<'a, T, E>,
    P6: Parser<'a, T, E>,
 {
    fn any(self) -> (r: Choice<Self>) {
        Choice::new(self)
    }
}

/// The first alternative capable of succeeding from `entry` produced the
/// result: every alternative before it failed there, and the ones after it
/// were never attempted.
pub open spec fn choice7_won<'a, T, E, P1, P2, P3, P4, P5, P6, P7>(
    parsers: (P1, P2, P3, P4, P5, P6, P7),
    src: Seq<char>,
    entry: int,
    exit: int,
    t: T,
) -> bool where
    P1: Parser<'a, T, E>,
    P2: Parser<'a, T, E>,
    P3: Parser<'a, T, E>,
    P4: Parser<'a, T, E>,
    P5: Parser<'a, T, E>,
    P6: Parser<'a, T, E>,
    P7: Parser<'a, T, E>,
 {
    (parsers.0.parsed(src, entry, exit, Ok(t)))
        || ((exists|cause: E, fpos: int| #[trigger] parsers.0.parsed(src, entry, fpos, Err(cause))) && parsers.1.parsed(src, entry, exit, Ok(t)))
        || ((exists|cause: E, fpos: int| #[trigger] parsers.0.parsed(src, entry, fpos, Err(cause))) && (exists|cause: E, fpos: int| #[trigger] parsers.1.parsed(src, entry, fpos, Err(cause))) && parsers.2.parsed(src, entry, exit, Ok(t)))
        || ((exists|cause: E, fpos: int| #[trigger] parsers.0.parsed(src, entry, fpos, Err(cause))) && (exists|cause: E, fpos: int| #[trigger] parsers.1.parsed(src, entry, fpos, Err(cause))) && (exists|cause: E, fpos: int| #[trigger] parsers.2.parsed(src, entry, fpos, Err(cause))) && parsers.3.parsed(src, entry, exit, Ok(t)))
        || ((exists|cause: E, fpos: int| #[trigger] parsers.0.parsed(src, entry, fpos, Err(cause))) && (exists|cause: E, fpos: int| #[trigger] parsers.1.parsed(src, entry, fpos, Err(cause))) && (exists|cause: E, fpos: int| #[trigger] parsers.2.parsed(src, entry, fpos, Err(cause))) && (exists|cause: E, fpos: int| #[trigger] parsers.3.parsed(src, entry, fpos, Err(cause))) && parsers.4.parsed(src, entry, exit, Ok(t)))
        || ((exists|cause: E, fpos: int| #[trigger] parsers.0.parsed(src, entry, fpos, Err(cause))) && (exists|cause: E, fpos: int| #[trigger] parsers.1.parsed(src, entry, fpos, Err(cause))) && (exists|cause: E, fpos: int| #[trigger] parsers.2.parsed(src, entry, fpos, Err(cause))) && (exists|cause: E, fpos: int| #[trigger] parsers.3.parsed(src, entry, fpos, Err(cause))) && (exists|cause: E, fpos: int| #[trigger] parsers.4.parsed(src, entry, fpos, Err(cause))) && parsers.5.parsed(src, entry, exit, Ok(t)))
        || ((exists|cause: E, fpos: int| #[trigger] parsers.0.parsed(src, entry, fpos, Err(cause))) && (exists|cause: E, fpos: int| #[trigger] parsers.1.parsed(src, entry, fpos, Err(cause))) && (exists|cause: E, fpos: int| #[trigger] parsers.2.parsed(src, entry, fpos, Err(cause))) && (exists|cause: E, fpos: int| #[trigger] parsers.3.parsed(src, entry, fpos, Err(cause))) && (exists|cause: E, fpos: int| #[trigger] parsers.4.parsed(src, entry, fpos, Err(cause))) && (exists|cause: E, fpos: int| #[trigger] parsers.5.parsed(src, entry, fpos, Err(cause))) && parsers.6.parsed(src, entry, exit, Ok(t)))
}

/// Every alternative was attempted from `entry` and failed; `es` pairs each
/// alternative with its own failure condition, in declaration order.
pub open spec fn choice7_all_failed<'a, T, E, P1, P2, P3, P4, P5, P6, P7>(
    parsers: (P1, P2, P3, P4, P5, P6, P7),
    src: Seq<char>,
    entry: int,
    es: Seq<E>,
) -> bool where
    P1: Parser<'a, T, E>,
    P2: Parser<'a, T, E>,
    P3: Parser<'a, T, E>,
    P4: Parser<'a, T, E>,
    P5: Parser<'a, T, E>,
    P6: Parser<'a, T, E>,
    P7: Parser<'a, T, E>,
 {
    es.len() == 7 && (exists|fpos: int| #[trigger] parsers.0.parsed(src, entry, fpos, Err(es[0])))
        && (exists|fpos: int| #[trigger] parsers.1.parsed(src, entry, fpos, Err(es[1])))
        && (exists|fpos: int| #[trigger] parsers.2.parsed(src, entry, fpos, Err(es[2])))
        && (exists|fpos: int| #[trigger] parsers.3.parsed(src, entry, fpos, Err(es[3])))
        && (exists|fpos: int| #[trigger] parsers.4.parsed(src, entry, fpos, Err(es[4])))
        && (exists|fpos: int| #[trigger] parsers.5.parsed(src, entry, fpos, Err(es[5])))
        && (exists|fpos: int| #[trigger] parsers.6.parsed(src, entry, fpos, Err(es[6])))
}

impl<'a, T, E, P1, P2, P3, P4, P5, P6, P7> Parser<'a, T, Vec<E>> for Choice<(P1, P2, P3, P4, P5, P6, P7)> where
    P1: Parser<'a, T, E>,
    P2: Parser<'a, T, E>,
    P3: Parser<'a, T, E>,
    P4: Parser<'a, T, E>,
    P5: Parser<'a, T, E>,
    P6: Parser<'a, T, E>,
    P7: Parser<'a, T, E>,
 {
    open spec fn backtracks(&self) -> bool {
        true
    }

    open spec fn parsed(&self, src: Seq<char>, entry: int, exit: int, r: Result<T, Vec<E>>) -> bool {
        match r {
            Ok(t) => choice7_won(self.elems(), src, entry, exit, t),
            Err(es) => exit == entry && choice7_all_failed(self.elems(), src, entry, es@),
        }
    }

    fn parse(&self, buf: &mut Buffer<'a>) -> (r: Result<T, Vec<E>>) {
        let entry = buf.index();
        let mut errs: Vec<E> = Vec::new();
        let ghost mut fail1: int = 0;
        let ghost mut fail2: int = 0;
        let ghost mut fail3: int = 0;
        let ghost mut fail4: int = 0;
        let ghost mut fail5: int = 0;
        let ghost mut fail6: int = 0;
        let ghost mut fail7: int = 0;
        match self.choices.0.parse(buf) {
            Ok(t) => {
                proof {
                    assert(self.choices.0.parsed(old(buf).src(), old(buf).pos(), buf.pos(), Ok(
                    t)));
                    assert(choice7_won(self.elems(), old(buf).src(), old(buf).pos(), buf.pos(), t));
                }
                return Ok(t);
            },
            Err(e) => {
                proof {
                    fail1 = buf.pos();
                }
                errs.push(e);
                buf.set_index(entry);
            },
        }
        match self.choices.1.parse(buf) {
            Ok(t) => {
                proof {
                    assert(self.choices.1.parsed(old(buf).src(), old(buf).pos(), buf.pos(), Ok(
                    t)));
                    assert(choice7_won(self.elems(), old(buf).src(), old(buf).pos(), buf.pos(), t));
                }
                return Ok(t);
            },
            Err(e) => {
                proof {
                    fail2 = buf.pos();
                }
                errs.push(e);
                buf.set_index(entry);
            },
        }
        match self.choices.2.parse(buf) {
            Ok(t) => {
                proof {
                    assert(self.choices.2.parsed(old(buf).src(), old(buf).pos(), buf.pos(), Ok(
                    t)));
                    assert(choice7_won(self.elems(), old(buf).src(), old(buf).pos(), buf.pos(), t));
                }
                return Ok(t);
            },
            Err(e) => {
                proof {
                    fail3 = buf.pos();
                }
                errs.push(e);
                buf.set_index(entry);
            },
        }
        match self.choices.3.parse(buf) {
            Ok(t) => {
                proof {
                    assert(self.choices.3.parsed(old(buf).src(), old(buf).pos(), buf.pos(), Ok(
                    t)));
                    assert(choice7_won(self.elems(), old(buf).src(), old(buf).pos(), buf.pos(), t));
                }
                return Ok(t);
            },
            Err(e) => {
                proof {
                    fail4 = buf.pos();
                }
                errs.push(e);
                buf.set_index(entry);
            },
        }
        match self.choices.4.parse(buf) {
            Ok(t) => {
                proof {
                    assert(self.choices.4.parsed(old(buf).src(), old(buf).pos(), buf.pos(), Ok(
                    t)));
                    assert(choice7_won(self.elems(), old(buf).src(), old(buf).pos(), buf.pos(), t));
                }
                return Ok(t);
            },
            Err(e) => {
                proof {
                    fail5 = buf.pos();
                }
                errs.push(e);
                buf.set_index(entry);
            },
        }
        match self.choices.5.parse(buf) {
            Ok(t) => {
                proof {
                    assert(self.choices.5.parsed(old(buf).src(), old(buf).pos(), buf.pos(), Ok(
                    t)));
                    assert(choice7_won(self.elems(), old(buf).src(), old(buf).pos(), buf.pos(), t));
                }
                return Ok(t);
            },
            Err(e) => {
                proof {
                    fail6 = buf.pos();
                }
                errs.push(e);
                buf.set_index(entry);
            },
        }
        match self.choices.6.parse(buf) {
            Ok(t) => {
                proof {
                    assert(self.choices.6.parsed(old(buf).src(), old(buf).pos(), buf.pos(), Ok(
                    t)));
                    assert(choice7_won(self.elems(), old(buf).src(), old(buf).pos(), buf.pos(), t));
                }
                return Ok(t);
            },
            Err(e) => {
                proof {
                    fail7 = buf.pos();
                }
                errs.push(e);
                buf.set_index(entry);
            },
        }
        proof {
            assert(self.choices.0.parsed(old(buf).src(), old(buf).pos(), fail1, Err(errs@[0])));
            assert(self.choices.1.parsed(old(buf).src(), old(buf).pos(), fail2, Err(errs@[1])));
            assert(self.choices.2.parsed(old(buf).src(), old(buf).pos(), fail3, Err(errs@[2])));
            assert(self.choices.3.parsed(old(buf).src(), old(buf).pos(), fail4, Err(errs@[3])));
            assert(self.choices.4.parsed(old(buf).src(), old(buf).pos(), fail5, Err(errs@[4])));
            assert(self.choices.5.parsed(old(buf).src(), old(buf).pos(), fail6, Err(errs@[5])));
            assert(self.choices.6.parsed(old(buf).src(), old(buf).pos(), fail7, Err(errs@[6])));
            assert(choice7_all_failed(self.elems(), old(buf).src(), old(buf).pos(), errs@));
        }
        Err(errs)
    }
}

impl<'a, T, E, P1, P2, P3, P4, P5, P6, P7> ParserExt3<'a, Vec<E>, T> for (P1, P2, P3, P4, P5, P6, P7) where
    P1: Parser<'a, T, E>,
    P2: Parser<'a, T, E>,
    P3: Parser<'a, T, E>,
    P4: Parser<'a, T, E>,
    P5: Parser<'a, T, E>,
    P6: Parser<'a, T, E>,
    P7: Parser<'a, T, E>,
 {
    fn any(self) -> (r: Choice<Self>) {
        Choice::new(self)
    }
}

/// The first alternative capable of succeeding from `entry` produced the
/// result: every alternative before it failed there, and the ones after it
/// were never attempted.
pub open spec fn choice8_won<'a, T, E, P1, P2, P3, P4, P5, P6, P7, P8>(
    parsers: (P1, P2, P3, P4, P5, P6, P7, P8),
    src: Seq<char>,
    entry: int,
    exit: int,
    t: T,
) -> bool where
    P1: Parser<'a, T, E>,
    P2: Parser<'a, T, E>,
    P3: Parser<'a, T, E>,
    P4: Parser<'a, T, E>,
    P5: Parser<'a, T, E>,
    P6: Parser<'a, T, E>,
    P7: Parser<'a, T, E>,
    P8: Parser<'a, T, E>,
 {
    (parsers.0.parsed(src, entry, exit, Ok(t)))
        || ((exists|cause: E, fpos: int| #[trigger] parsers.0.parsed(src, entry, fpos, Err(cause))) && parsers.1.parsed(src, entry, exit, Ok(t)))
        || ((exists|cause: E, fpos: int| #[trigger] parsers.0.parsed(src, entry, fpos, Err(cause))) && (exists|cause: E, fpos: int| #[trigger] parsers.1.parsed(src, entry, fpos, Err(cause))) && parsers.2.parsed(src, entry, exit, Ok(t)))
        || ((exists|cause: E, fpos: int| #[trigger] parsers.0.parsed(src, entry, fpos, Err(cause))) && (exists|cause: E, fpos: int| #[trigger] parsers.1.parsed(src, entry, fpos, Err(cause))) && (exists|cause: E, fpos: int| #[trigger] parsers.2.parsed(src, entry, fpos, Err(cause))) && parsers.3.parsed(src, entry, exit, Ok(t)))
        || ((exists|cause: E, fpos: int| #[trigger] parsers.0.parsed(src, entry, fpos, Err(cause))) && (exists|cause: E, fpos: int| #[trigger] parsers.1.parsed(src, entry, fpos, Err(cause))) && (exists|cause: E, fpos: int| #[trigger] parsers.2.parsed(src, entry, fpos, Err(cause))) && (exists|cause: E, fpos: int| #[trigger] parsers.3.parsed(src, entry, fpos, Err(cause))) && parsers.4.parsed(src, entry, exit, Ok(t)))
        || ((exists|cause: E, fpos: int| #[trigger] parsers.0.parsed(src, entry, fpos, Err(cause))) && (exists|cause: E, fpos: int| #[trigger] parsers.1.parsed(src, entry, fpos, Err(cause))) && (exists|cause: E, fpos: int| #[trigger] parsers.2.parsed(src, entry, fpos, Err(cause))) && (exists|cause: E, fpos: int| #[trigger] parsers.3.parsed(src, entry, fpos, Err(cause))) && (exists|cause: E, fpos: int| #[trigger] parsers.4.parsed(src, entry, fpos, Err(cause))) && parsers.5.parsed(src, entry, exit, Ok(t)))
        || ((exists|cause: E, fpos: int| #[trigger] parsers.0.parsed(src, entry, fpos, Err(cause))) && (exists|cause: E, fpos: int| #[trigger] parsers.1.parsed(src, entry, fpos, Err(cause))) && (exists|cause: E, fpos: int| #[trigger] parsers.2.parsed(src, entry, fpos, Err(cause))) && (exists|cause: E, fpos: int| #[trigger] parsers.3.parsed(src, entry, fpos, Err(cause))) && (exists|cause: E, fpos: int| #[trigger] parsers.4.parsed(src, entry, fpos, Err(cause))) && (exists|cause: E, fpos: int| #[trigger] parsers.5.parsed(src, entry, fpos, Err(cause))) && parsers.6.parsed(src, entry, exit, Ok(t)))
        || ((exists|cause: E, fpos: int| #[trigger] parsers.0.parsed(src, entry, fpos, Err(cause))) && (exists|cause: E, fpos: int| #[trigger] parsers.1.parsed(src, entry, fpos, Err(cause))) && (exists|cause: E, fpos: int| #[trigger] parsers.2.parsed(src, entry, fpos, Err(cause))) && (exists|cause: E, fpos: int| #[trigger] parsers.3.parsed(src, entry, fpos, Err(cause))) && (exists|cause: E, fpos: int| #[trigger] parsers.4.parsed(src, entry, fpos, Err(cause))) && (exists|cause: E, fpos: int| #[trigger] parsers.5.parsed(src, entry, fpos, Err(cause))) && (exists|cause: E, fpos: int| #[trigger] parsers.6.parsed(src, entry, fpos, Err(cause))) && parsers.7.parsed(src, entry, exit, Ok(t)))
}

/// Every alternative was attempted from `entry` and failed; `es` pairs each
/// alternative with its own failure condition, in declaration order.
pub open spec fn choice8_all_failed<'a, T, E, P1, P2, P3, P4, P5, P6, P7, P8>(
    parsers: (P1, P2, P3, P4, P5, P6, P7, P8),
    src: Seq<char>,
    entry: int,
    es: Seq<E>,
) -> bool where
    P1: Parser<'a, T, E>,
    P2: Parser<'a, T, E>,
    P3: Parser<'a, T, E>,
    P4: Parser<'a, T, E>,
    P5: Parser<'a, T, E>,
    P6: Parser<'a, T, E>,
    P7: Parser<'a, T, E>,
    P8: Parser<'a, T, E>,
 {
    es.len() == 8 && (exists|fpos: int| #[trigger] parsers.0.parsed(src, entry, fpos, Err(es[0])))
        && (exists|fpos: int| #[trigger] parsers.1.parsed(src, entry, fpos, Err(es[1])))
        && (exists|fpos: int| #[trigger] parsers.2.parsed(src, entry, fpos, Err(es[2])))
        && (exists|fpos: int| #[trigger] parsers.3.parsed(src, entry, fpos, Err(es[3])))
        && (exists|fpos: int| #[trigger] parsers.4.parsed(src, entry, fpos, Err(es[4])))
        && (exists|fpos: int| #[trigger] parsers.5.parsed(src, entry, fpos, Err(es[5])))
        && (exists|fpos: int| #[trigger] parsers.6.parsed(src, entry, fpos, Err(es[6])))
        && (exists|fpos: int| #[trigger] parsers.7.parsed(src, entry, fpos, Err(es[7])))
}

impl<'a, T, E, P1, P2, P3, P4, P5, P6, P7, P8> Parser<'a, T, Vec<E>> for Choice<(P1, P2, P3, P4, P5, P6, P7, P8)> where
    P1: Parser<'a, T, E>,
    P2: Parser<'a, T, E>,
    P3: Parser<'a, T, E>,
    P4: Parser<'a, T, E>,
    P5: Parser<'a, T, E>,
    P6: Parser<'a, T, E>,
    P7: Parser<'a, T, E>,
    P8: Parser<'a, T, E>,
 {
    open spec fn backtracks(&self) -> bool {
        true
    }

    open spec fn parsed(&self, src: Seq<char>, entry: int, exit: int, r: Result<T, Vec<E>>) -> bool {
        match r {
            Ok(t) => choice8_won(self.elems(), src, entry, exit, t),
            Err(es) => exit == entry && choice8_all_failed(self.elems(), src, entry, es@),
        }
    }

    fn parse(&self, buf: &mut Buffer<'a>) -> (r: Result<T, Vec<E>>) {
        let entry = buf.index();
        let mut errs: Vec<E> = Vec::new();
        let ghost mut fail1: int = 0;
        let ghost mut fail2: int = 0;
        let ghost mut fail3: int = 0;
        let ghost mut fail4: int = 0;
        let ghost mut fail5: int = 0;
        let ghost mut fail6: int = 0;
        let ghost mut fail7: int = 0;
        let ghost mut fail8: int = 0;
        match self.choices.0.parse(buf) {
            Ok(t) => {
                proof {
                    assert(self.choices.0.parsed(old(buf).src(), old(buf).pos(), buf.pos(), Ok(
                    t)));
                    assert(choice8_won(self.elems(), old(buf).src(), old(buf).pos(), buf.pos(), t));
                }
                return Ok(t);
            },
            Err(e) => {
                proof {
                    fail1 = buf.pos();
                }
                errs.push(e);
                buf.set_index(entry);
            },
        }
        match self.choices.1.parse(buf) {
            Ok(t) => {
                proof {
                    assert(self.choices.1.parsed(old(buf).src(), old(buf).pos(), buf.pos(), Ok(
                    t)));
                    assert(choice8_won(self.elems(), old(buf).src(), old(buf).pos(), buf.pos(), t));
                }
                return Ok(t);
            },
            Err(e) => {
                proof {
                    fail2 = buf.pos();
                }
                errs.push(e);
                buf.set_index(entry);
            },
        }
        match self.choices.2.parse(buf) {
            Ok(t) => {
                proof {
                    assert(self.choices.2.parsed(old(buf).src(), old(buf).pos(), buf.pos(), Ok(
                    t)));
                    assert(choice8_won(self.elems(), old(buf).src(), old(buf).pos(), buf.pos(), t));
                }
                return Ok(t);
            },
            Err(e) => {
                proof {
                    fail3 = buf.pos();
                }
                errs.push(e);
                buf.set_index(entry);
            },
        }
        match self.choices.3.parse(buf) {
            Ok(t) => {
                proof {
                    assert(self.choices.3.parsed(old(buf).src(), old(buf).pos(), buf.pos(), Ok(
                    t)));
                    assert(choice8_won(self.elems(), old(buf).src(), old(buf).pos(), buf.pos(), t));
                }
                return Ok(t);
            },
            Err(e) => {
                proof {
                    fail4 = buf.pos();
                }
                errs.push(e);
                buf.set_index(entry);
            },
        }
        match self.choices.4.parse(buf) {
            Ok(t) => {
                proof {
                    assert(self.choices.4.parsed(old(buf).src(), old(buf).pos(), buf.pos(), Ok(
                    t)));
                    assert(choice8_won(self.elems(), old(buf).src(), old(buf).pos(), buf.pos(), t));
                }
                return Ok(t);
            },
            Err(e) => {
                proof {
                    fail5 = buf.pos();
                }
                errs.push(e);
                buf.set_index(entry);
            },
        }
        match self.choices.5.parse(buf) {
            Ok(t) => {
                proof {
                    assert(self.choices.5.parsed(old(buf).src(), old(buf).pos(), buf.pos(), Ok(
                    t)));
                    assert(choice8_won(self.elems(), old(buf).src(), old(buf).pos(), buf.pos(), t));
                }
                return Ok(t);
            },
            Err(e) => {
                proof {
                    fail6 = buf.pos();
                }
                errs.push(e);
                buf.set_index(entry);
            },
        }
        match self.choices.6.parse(buf) {
            Ok(t) => {
                proof {
                    assert(self.choices.6.parsed(old(buf).src(), old(buf).pos(), buf.pos(), Ok(
                    t)));
                    assert(choice8_won(self.elems(), old(buf).src(), old(buf).pos(), buf.pos(), t));
                }
                return Ok(t);
            },
            Err(e) => {
                proof {
                    fail7 = buf.pos();
                }
                errs.push(e);
                buf.set_index(entry);
            },
        }
        match self.choices.7.parse(buf) {
            Ok(t) => {
                proof {
                    assert(self.choices.7.parsed(old(buf).src(), old(buf).pos(), buf.pos(), Ok(
                    t)));
                    assert(choice8_won(self.elems(), old(buf).src(), old(buf).pos(), buf.pos(), t));
                }
                return Ok(t);
            },
            Err(e) => {
                proof {
                    fail8 = buf.pos();
                }
                errs.push(e);
                buf.set_index(entry);
            },
        }
        proof {
            assert(self.choices.0.parsed(old(buf).src(), old(buf).pos(), fail1, Err(errs@[0])));
            assert(self.choices.1.parsed(old(buf).src(), old(buf).pos(), fail2, Err(errs@[1])));
            assert(self.choices.2.parsed(old(buf).src(), old(buf).pos(), fail3, Err(errs@[2])));
            assert(self.choices.3.parsed(old(buf).src(), old(buf).pos(), fail4, Err(errs@[3])));
            assert(self.choices.4.parsed(old(buf).src(), old(buf).pos(), fail5, Err(errs@[4])));
            assert(self.choices.5.parsed(old(buf).src(), old(buf).pos(), fail6, Err(errs@[5])));
            assert(self.choices.6.parsed(old(buf).src(), old(buf).pos(), fail7, Err(errs@[6])));
            assert(self.choices.7.parsed(old(buf).src(), old(buf).pos(), fail8, Err(errs@[7])));
            assert(choice8_all_failed(self.elems(), old(buf).src(), old(buf).pos(), errs@));
        }
        Err(errs)
    }
}

impl<'a, T, E, P1, P2, P3, P4, P5, P6, P7, P8> ParserExt3<'a, Vec<E>, T> for (P1, P2, P3, P4, P5, P6, P7, P8) where
    P1: Parser<'a, T, E>,
    P2: Parser<'a, T, E>,
    P3: Parser<'a, T, E>,
    P4: Parser<'a, T, E>,
    P5: Parser<'a, T, E>,
    P6: Parser<'a, T, E>,
    P7: Parser<'a, T, E>,
    P8: Parser<'a, T, E>,
 {
    fn any(self) -> (r: Choice<Self>) {
        Choice::new(self)
    }
}

/// The first alternative capable of succeeding from `entry` produced the
/// result: every alternative before it failed there, and the ones after it
/// were never attempted.
pub open spec fn choice9_won<'a, T, E, P1, P2, P3, P4, P5, P6, P7, P8, P9>(
    parsers: (P1, P2, P3, P4, P5, P6, P7, P8, P9),
    src: Seq<char>,
    entry: int,
    exit: int,
    t: T,
) -> bool where
    P1: Parser<'a, T, E>,
    P2: Parser<'a, T, E>,
    P3: Parser<'a, T, E>,
    P4: Parser<'a, T, E>,
    P5: Parser<'a, T, E>,
    P6: Parser<'a, T, E>,
    P7: Parser<'a, T, E>,
    P8: Parser<'a, T, E>,
    P9: Parser<'a, T, E>,
 {
    (parsers.0.parsed(src, entry, exit, Ok(t)))
        || ((exists|cause: E, fpos: int| #[trigger] parsers.0.parsed(src, entry, fpos, Err(cause))) && parsers.1.parsed(src, entry, exit, Ok(t)))
        || ((exists|cause: E, fpos: int| #[trigger] parsers.0.parsed(src, entry, fpos, Err(cause))) && (exists|cause: E, fpos: int| #[trigger] parsers.1.parsed(src, entry, fpos, Err(cause))) && parsers.2.parsed(src, entry, exit, Ok(t)))
        || ((exists|cause: E, fpos: int| #[trigger] parsers.0.parsed(src, entry, fpos, Err(cause))) && (exists|cause: E, fpos: int| #[trigger] parsers.1.parsed(src, entry, fpos, Err(cause))) && (exists|cause: E, fpos: int| #[trigger] parsers.2.parsed(src, entry, fpos, Err(cause))) && parsers.3.parsed(src, entry, exit, Ok(t)))
        || ((exists|cause: E, fpos: int| #[trigger] parsers.0.parsed(src, entry, fpos, Err(cause))) && (exists|cause: E, fpos: int| #[trigger] parsers.1.parsed(src, entry, fpos, Err(cause))) && (exists|cause: E, fpos: int| #[trigger] parsers.2.parsed(src, entry, fpos, Err(cause))) && (exists|cause: E, fpos: int| #[trigger] parsers.3.parsed(src, entry, fpos, Err(cause))) && parsers.4.parsed(src, entry, exit, Ok(t)))
        || ((exists|cause: E, fpos: int| #[trigger] parsers.0.parsed(src, entry, fpos, Err(cause))) && (exists|cause: E, fpos: int| #[trigger] parsers.1.parsed(src, entry, fpos, Err(cause))) && (exists|cause: E, fpos: int| #[trigger] parsers.2.parsed(src, entry, fpos, Err(cause))) && (exists|cause: E, fpos: int| #[trigger] parsers.3.parsed(src, entry, fpos, Err(cause))) && (exists|cause: E, fpos: int| #[trigger] parsers.4.parsed(src, entry, fpos, Err(cause))) && parsers.5.parsed(src, entry, exit, Ok(t)))
        || ((exists|cause: E, fpos: int| #[trigger] parsers.0.parsed(src, entry, fpos, Err(cause))) && (exists|cause: E, fpos: int| #[trigger] parsers.1.parsed(src, entry, fpos, Err(cause))) && (exists|cause: E, fpos: int| #[trigger] parsers.2.parsed(src, entry, fpos, Err(cause))) && (exists|cause: E, fpos: int| #[trigger] parsers.3.parsed(src, entry, fpos, Err(cause))) && (exists|cause: E, fpos: int| #[trigger] parsers.4.parsed(src, entry, fpos, Err(cause))) && (exists|cause: E, fpos: int| #[trigger] parsers.5.parsed(src, entry, fpos, Err(cause))) && parsers.6.parsed(src, entry, exit, Ok(t)))
        || ((exists|cause: E, fpos: int| #[trigger] parsers.0.parsed(src, entry, fpos, Err(cause))) && (exists|cause: E, fpos: int| #[trigger] parsers.1.parsed(src, entry, fpos, Err(cause))) && (exists|cause: E, fpos: int| #[trigger] parsers.2.parsed(src, entry, fpos, Err(cause))) && (exists|cause: E, fpos: int| #[trigger] parsers.3.parsed(src, entry, fpos, Err(cause))) && (exists|cause: E, fpos: int| #[trigger] parsers.4.parsed(src, entry, fpos, Err(cause))) && (exists|cause: E, fpos: int| #[trigger] parsers.5.parsed(src, entry, fpos, Err(cause))) && (exists|cause: E, fpos: int| #[trigger] parsers.6.parsed(src, entry, fpos, Err(cause))) && parsers.7.parsed(src, entry, exit, Ok(t)))
        || ((exists|cause: E, fpos: int| #[trigger] parsers.0.parsed(src, entry, fpos, Err(cause))) && (exists|cause: E, fpos: int| #[trigger] parsers.1.parsed(src, entry, fpos, Err(cause))) && (exists|cause: E, fpos: int| #[trigger] parsers.2.parsed(src, entry, fpos, Err(cause))) && (exists|cause: E, fpos: int| #[trigger] parsers.3.parsed(src, entry, fpos, Err(cause))) && (exists|cause: E, fpos: int| #[trigger] parsers.4.parsed(src, entry, fpos, Err(cause))) && (exists|cause: E, fpos: int| #[trigger] parsers.5.parsed(src, entry, fpos, Err(cause))) && (exists|cause: E, fpos: int| #[trigger] parsers.6.parsed(src, entry, fpos, Err(cause))) && (exists|cause: E, fpos: int| #[trigger] parsers.7.parsed(src, entry, fpos, Err(cause))) && parsers.8.parsed(src, entry, exit, Ok(t)))
}

/// Every alternative was attempted from `entry` and failed; `es` pairs each
/// alternative with its own failure condition, in declaration order.
pub open spec fn choice9_all_failed<'a, T, E, P1, P2, P3, P4, P5, P6, P7, P8, P9>(
    parsers: (P1, P2, P3, P4, P5, P6, P7, P8, P9),
    src: Seq<char>,
    entry: int,
    es: Seq<E>,
) -> bool where
    P1: Parser<'a, T, E>,
    P2: Parser<'a, T, E>,
    P3: Parser<'a, T, E>,
    P4: Parser<'a, T, E>,
    P5: Parser<'a, T, E>,
    P6: Parser<'a, T, E>,
    P7: Parser<'a, T, E>,
    P8: Parser<'a, T, E>,
    P9: Parser<'a, T, E>,
 {
    es.len() == 9 && (exists|fpos: int| #[trigger] parsers.0.parsed(src, entry, fpos, Err(es[0])))
        && (exists|fpos: int| #[trigger] parsers.1.parsed(src, entry, fpos, Err(es[1])))
        && (exists|fpos: int| #[trigger] parsers.2.parsed(src, entry, fpos, Err(es[2])))
        && (exists|fpos: int| #[trigger] parsers.3.parsed(src, entry, fpos, Err(es[3])))
        && (exists|fpos: int| #[trigger] parsers.4.parsed(src, entry, fpos, Err(es[4])))
        && (exists|fpos: int| #[trigger] parsers.5.parsed(src, entry, fpos, Err(es[5])))
        && (exists|fpos: int| #[trigger] parsers.6.parsed(src, entry, fpos, Err(es[6])))
        && (exists|fpos: int| #[trigger] parsers.7.parsed(src, entry, fpos, Err(es[7])))
        && (exists|fpos: int| #[trigger] parsers.8.parsed(src, entry, fpos, Err(es[8])))
}

impl<'a, T, E, P1, P2, P3, P4, P5, P6, P7, P8, P9> Parser<'a, T, Vec<E>> for Choice<(P1, P2, P3, P4, P5, P6, P7, P8, P9)> where
    P1: Parser<'a, T, E>,
    P2: Parser<'a, T, E>,
    P3: Parser<'a, T, E>,
    P4: Parser<'a, T, E>,
    P5: Parser<'a, T, E>,
    P6: Parser<'a, T, E>,
    P7: Parser<'a, T, E>,
    P8: Parser<'a, T, E>,
    P9: Parser<'a, T, E>,
 {
    open spec fn backtracks(&self) -> bool {
        true
    }

    open spec fn parsed(&self, src: Seq<char>, entry: int, exit: int, r: Result<T, Vec<E>>) -> bool {
        match r {
            Ok(t) => choice9_won(self.elems(), src, entry, exit, t),
            Err(es) => exit == entry && choice9_all_failed(self.elems(), src, entry, es@),
        }
    }

    fn parse(&self, buf: &mut Buffer<'a>) -> (r: Result<T, Vec<E>>) {
        let entry = buf.index();
        let mut errs: Vec<E> = Vec::new();
        let ghost mut fail1: int = 0;
        let ghost mut fail2: int = 0;
        let ghost mut fail3: int = 0;
        let ghost mut fail4: int = 0;
        let ghost mut fail5: int = 0;
        let ghost mut fail6: int = 0;
        let ghost mut fail7: int = 0;
        let ghost mut fail8: int = 0;
        let ghost mut fail9: int = 0;
        match self.choices.0.parse(buf) {
            Ok(t) => {
                proof {
                    assert(self.choices.0.parsed(old(buf).src(), old(buf).pos(), buf.pos(), Ok(
                    t)));
                    assert(choice9_won(self.elems(), old(buf).src(), old(buf).pos(), buf.pos(), t));
                }
                return Ok(t);
            },
            Err(e) => {
                proof {
                    fail1 = buf.pos();
                }
                errs.push(e);
                buf.set_index(entry);
            },
        }
        match self.choices.1.parse(buf) {
            Ok(t) => {
                proof {
                    assert(self.choices.1.parsed(old(buf).src(), old(buf).pos(), buf.pos(), Ok(
                    t)));
                    assert(choice9_won(self.elems(), old(buf).src(), old(buf).pos(), buf.pos(), t));
                }
                return Ok(t);
            },
            Err(e) => {
                proof {
                    fail2 = buf.pos();
                }
                errs.push(e);
                buf.set_index(entry);
            },
        }
        match self.choices.2.parse(buf) {
            Ok(t) => {
                proof {
                    assert(self.choices.2.parsed(old(buf).src(), old(buf).pos(), buf.pos(), Ok(
                    t)));
                    assert(choice9_won(self.elems(), old(buf).src(), old(buf).pos(), buf.pos(), t));
                }
                return Ok(t);
            },
            Err(e) => {
                proof {
                    fail3 = buf.pos();
                }
                errs.push(e);
                buf.set_index(entry);
            },
        }
        match self.choices.3.parse(buf) {
            Ok(t) => {
                proof {
                    assert(self.choices.3.parsed(old(buf).src(), old(buf).pos(), buf.pos(), Ok(
                    t)));
                    assert(choice9_won(self.elems(), old(buf).src(), old(buf).pos(), buf.pos(), t));
                }
                return Ok(t);
            },
            Err(e) => {
                proof {
                    fail4 = buf.pos();
                }
                errs.push(e);
                buf.set_index(entry);
            },
        }
        match self.choices.4.parse(buf) {
            Ok(t) => {
                proof {
                    assert(self.choices.4.parsed(old(buf).src(), old(buf).pos(), buf.pos(), Ok(
                    t)));
                    assert(choice9_won(self.elems(), old(buf).src(), old(buf).pos(), buf.pos(), t));
                }
                return Ok(t);
            },
            Err(e) => {
                proof {
                    fail5 = buf.pos();
                }
                errs.push(e);
                buf.set_index(entry);
            },
        }
        match self.choices.5.parse(buf) {
            Ok(t) => {
                proof {
                    assert(self.choices.5.parsed(old(buf).src(), old(buf).pos(), buf.pos(), Ok(
                    t)));
                    assert(choice9_won(self.elems(), old(buf).src(), old(buf).pos(), buf.pos(), t));
                }
                return Ok(t);
            },
            Err(e) => {
                proof {
                    fail6 = buf.pos();
                }
                errs.push(e);
                buf.set_index(entry);
            },
        }
        match self.choices.6.parse(buf) {
            Ok(t) => {
                proof {
                    assert(self.choices.6.parsed(old(buf).src(), old(buf).pos(), buf.pos(), Ok(
                    t)));
                    assert(choice9_won(self.elems(), old(buf).src(), old(buf).pos(), buf.pos(), t));
                }
                return Ok(t);
            },
            Err(e) => {
                proof {
                    fail7 = buf.pos();
                }
                errs.push(e);
                buf.set_index(entry);
            },
        }
        match self.choices.7.parse(buf) {
            Ok(t) => {
                proof {
                    assert(self.choices.7.parsed(old(buf).src(), old(buf).pos(), buf.pos(), Ok(
                    t)));
                    assert(choice9_won(self.elems(), old(buf).src(), old(buf).pos(), buf.pos(), t));
                }
                return Ok(t);
            },
            Err(e) => {
                proof {
                    fail8 = buf.pos();
                }
                errs.push(e);
                buf.set_index(entry);
            },
        }
        match self.choices.8.parse(buf) {
            Ok(t) => {
                proof {
                    assert(self.choices.8.parsed(old(buf).src(), old(buf).pos(), buf.pos(), Ok(
                    t)));
                    assert(choice9_won(self.elems(), old(buf).src(), old(buf).pos(), buf.pos(), t));
                }
                return Ok(t);
            },
            Err(e) => {
                proof {
                    fail9 = buf.pos();
                }
                errs.push(e);
                buf.set_index(entry);
            },
        }
        proof {
            assert(self.choices.0.parsed(old(buf).src(), old(buf).pos(), fail1, Err(errs@[0])));
            assert(self.choices.1.parsed(old(buf).src(), old(buf).pos(), fail2, Err(errs@[1])));
            assert(self.choices.2.parsed(old(buf).src(), old(buf).pos(), fail3, Err(errs@[2])));
            assert(self.choices.3.parsed(old(buf).src(), old(buf).pos(), fail4, Err(errs@[3])));
            assert(self.choices.4.parsed(old(buf).src(), old(buf).pos(), fail5, Err(errs@[4])));
            assert(self.choices.5.parsed(old(buf).src(), old(buf).pos(), fail6, Err(errs@[5])));
            assert(self.choices.6.parsed(old(buf).src(), old(buf).pos(), fail7, Err(errs@[6])));
            assert(self.choices.7.parsed(old(buf).src(), old(buf).pos(), fail8, Err(errs@[7])));
            assert(self.choices.8.parsed(old(buf).src(), old(buf).pos(), fail9, Err(errs@[8])));
            assert(choice9_all_failed(self.elems(), old(buf).src(), old(buf).pos(), errs@));
        }
        Err(errs)
    }
}

impl<'a, T, E, P1, P2, P3, P4, P5, P6, P7, P8, P9> ParserExt3<'a, Vec<E>, T> for (P1, P2, P3, P4, P5, P6, P7, P8, P9) where
    P1: Parser<'a, T, E>,
    P2: Parser<'a, T, E>,
    P3: Parser<'a, T, E>,
    P4: Parser<'a, T, E>,
    P5: Parser<'a, T, E>,
    P6: Parser<'a, T, E>,
    P7: Parser<'a, T, E>,
    P8: Parser<'a, T, E>,
    P9: Parser<'a, T, E>,
 {
    fn any(self) -> (r: Choice<Self>) {
        Choice::new(self)
    }
}

/// The first alternative capable of succeeding from `entry` produced the
/// result: every alternative before it failed there, and the ones after it
/// were never attempted.
pub open spec fn choice10_won<'a, T, E, P1, P2, P3, P4, P5, P6, P7, P8, P9, P10>(
    parsers: (P1, P2, P3, P4, P5, P6, P7, P8, P9, P10),
    src: Seq<char>,
    entry: int,
    exit: int,
    t: T,
) -> bool where
    P1: Parser<'a, T, E>,
    P2: Parser<'a, T, E>,
    P3: Parser<'a, T, E>,
    P4: Parser<'a, T, E>,
    P5: Parser<'a, T, E>,
    P6: Parser<'a, T, E>,
    P7: Parser<'a, T, E>,
    P8: Parser<'a, T, E>,
    P9: Parser<'a, T, E>,
    P10: Parser<'a, T, E>,
 {
    (parsers.0.parsed(src, entry, exit, Ok(t)))
        || ((exists|cause: E, fpos: int| #[trigger] parsers.0.parsed(src, entry, fpos, Err(cause))) && parsers.1.parsed(src, entry, exit, Ok(t)))
        || ((exists|cause: E, fpos: int| #[trigger] parsers.0.parsed(src, entry, fpos, Err(cause))) && (exists|cause: E, fpos: int| #[trigger] parsers.1.parsed(src, entry, fpos, Err(cause))) && parsers.2.parsed(src, entry, exit, Ok(t)))
        || ((exists|cause: E, fpos: int| #[trigger] parsers.0.parsed(src, entry, fpos, Err(cause))) && (exists|cause: E, fpos: int| #[trigger] parsers.1.parsed(src, entry, fpos, Err(cause))) && (exists|cause: E, fpos: int| #[trigger] parsers.2.parsed(src, entry, fpos, Err(cause))) && parsers.3.parsed(src, entry, exit, Ok(t)))
        || ((exists|cause: E, fpos: int| #[trigger] parsers.0.parsed(src, entry, fpos, Err(cause))) && (exists|cause: E, fpos: int| #[trigger] parsers.1.parsed(src, entry, fpos, Err(cause))) && (exists|cause: E, fpos: int| #[trigger] parsers.2.parsed(src, entry, fpos, Err(cause))) && (exists|cause: E, fpos: int| #[trigger] parsers.3.parsed(src, entry, fpos, Err(cause))) && parsers.4.parsed(src, entry, exit, Ok(t)))
        || ((exists|cause: E, fpos: int| #[trigger] parsers.0.parsed(src, entry, fpos, Err(cause))) && (exists|cause: E, fpos: int| #[trigger] parsers.1.parsed(src, entry, fpos, Err(cause))) && (exists|cause: E, fpos: int| #[trigger] parsers.2.parsed(src, entry, fpos, Err(cause))) && (exists|cause: E, fpos: int| #[trigger] parsers.3.parsed(src, entry, fpos, Err(cause))) && (exists|cause: E, fpos: int| #[trigger] parsers.4.parsed(src, entry, fpos, Err(cause))) && parsers.5.parsed(src, entry, exit, Ok(t)))
        || ((exists|cause: E, fpos: int| #[trigger] parsers.0.parsed(src, entry, fpos, Err(cause))) && (exists|cause: E, fpos: int| #[trigger] parsers.1.parsed(src, entry, fpos, Err(cause))) && (exists|cause: E, fpos: int| #[trigger] parsers.2.parsed(src, entry, fpos, Err(cause))) && (exists|cause: E, fpos: int| #[trigger] parsers.3.parsed(src, entry, fpos, Err(cause))) && (exists|cause: E, fpos: int| #[trigger] parsers.4.parsed(src, entry, fpos, Err(cause))) && (exists|cause: E, fpos: int| #[trigger] parsers.5.parsed(src, entry, fpos, Err(cause))) && parsers.6.parsed(src, entry, exit, Ok(t)))
        || ((exists|cause: E, fpos: int| #[trigger] parsers.0.parsed(src, entry, fpos, Err(cause))) && (exists|cause: E, fpos: int| #[trigger] parsers.1.parsed(src, entry, fpos, Err(cause))) && (exists|cause: E, fpos: int| #[trigger] parsers.2.parsed(src, entry, fpos, Err(cause))) && (exists|cause: E, fpos: int| #[trigger] parsers.3.parsed(src, entry, fpos, Err(cause))) && (exists|cause: E, fpos: int| #[trigger] parsers.4.parsed(src, entry, fpos, Err(cause))) && (exists|cause: E, fpos: int| #[trigger] parsers.5.parsed(src, entry, fpos, Err(cause))) && (exists|cause: E, fpos: int| #[trigger] parsers.6.parsed(src, entry, fpos, Err(cause))) && parsers.7.parsed(src, entry, exit, Ok(t)))
        || ((exists|cause: E, fpos: int| #[trigger] parsers.0.parsed(src, entry, fpos, Err(cause))) && (exists|cause: E, fpos: int| #[trigger] parsers.1.parsed(src, entry, fpos, Err(cause))) && (exists|cause: E, fpos: int| #[trigger] parsers.2.parsed(src, entry, fpos, Err(cause))) && (exists|cause: E, fpos: int| #[trigger] parsers.3.parsed(src, entry, fpos, Err(cause))) && (exists|cause: E, fpos: int| #[trigger] parsers.4.parsed(src, entry, fpos, Err(cause))) && (exists|cause: E, fpos: int| #[trigger] parsers.5.parsed(src, entry, fpos, Err(cause))) && (exists|cause: E, fpos: int| #[trigger] parsers.6.parsed(src, entry, fpos, Err(cause))) && (exists|cause: E, fpos: int| #[trigger] parsers.7.parsed(src, entry, fpos, Err(cause))) && parsers.8.parsed(src, entry, exit, Ok(t)))
        || ((exists|cause: E, fpos: int| #[trigger] parsers.0.parsed(src, entry, fpos, Err(cause))) && (exists|cause: E, fpos: int| #[trigger] parsers.1.parsed(src, entry, fpos, Err(cause))) && (exists|cause: E, fpos: int| #[trigger] parsers.2.parsed(src, entry, fpos, Err(cause))) && (exists|cause: E, fpos: int| #[trigger] parsers.3.parsed(src, entry, fpos, Err(cause))) && (exists|cause: E, fpos: int| #[trigger] parsers.4.parsed(src, entry, fpos, Err(cause))) && (exists|cause: E, fpos: int| #[trigger] parsers.5.parsed(src, entry, fpos, Err(cause))) && (exists|cause: E, fpos: int| #[trigger] parsers.6.parsed(src, entry, fpos, Err(cause))) && (exists|cause: E, fpos: int| #[trigger] parsers.7.parsed(src, entry, fpos, Err(cause))) && (exists|cause: E, fpos: int| #[trigger] parsers.8.parsed(src, entry, fpos, Err(cause))) && parsers.9.parsed(src, entry, exit, Ok(t)))
}

/// Every alternative was attempted from `entry` and failed; `es` pairs each
/// alternative with its own failure condition, in declaration order.
pub open spec fn choice10_all_failed<'a, T, E, P1, P2, P3, P4, P5, P6, P7, P8, P9, P10>(
    parsers: (P1, P2, P3, P4, P5, P6, P7, P8, P9, P10),
    src: Seq<char>,
    entry: int,
    es: Seq<E>,
) -> bool where
    P1: Parser<'a, T, E>,
    P2: Parser<'a, T, E>,
    P3: Parser<'a, T, E>,
    P4: Parser<'a, T, E>,
    P5: Parser<'a, T, E>,
    P6: Parser<'a, T, E>,
    P7: Parser<'a, T, E>,
    P8: Parser<'a, T, E>,
    P9: Parser<'a, T, E>,
    P10: Parser<'a, T, E>,
 {
    es.len() == 10 && (exists|fpos: int| #[trigger] parsers.0.parsed(src, entry, fpos, Err(es[0])))
        && (exists|fpos: int| #[trigger] parsers.1.parsed(src, entry, fpos, Err(es[1])))
        && (exists|fpos: int| #[trigger] parsers.2.parsed(src, entry, fpos, Err(es[2])))
        && (exists|fpos: int| #[trigger] parsers.3.parsed(src, entry, fpos, Err(es[3])))
        && (exists|fpos: int| #[trigger] parsers.4.parsed(src, entry, fpos, Err(es[4])))
        && (exists|fpos: int| #[trigger] parsers.5.parsed(src, entry, fpos, Err(es[5])))
        && (exists|fpos: int| #[trigger] parsers.6.parsed(src, entry, fpos, Err(es[6])))
        && (exists|fpos: int| #[trigger] parsers.7.parsed(src, entry, fpos, Err(es[7])))
        && (exists|fpos: int| #[trigger] parsers.8.parsed(src, entry, fpos, Err(es[8])))
        && (exists|fpos: int| #[trigger] parsers.9.parsed(src, entry, fpos, Err(es[9])))
}

impl<'a, T, E, P1, P2, P3, P4, P5, P6, P7, P8, P9, P10> Parser<'a, T, Vec<E>> for Choice<(P1, P2, P3, P4, P5, P6, P7, P8, P9, P10)> where
    P1: Parser<'a, T, E>,
    P2: Parser<'a, T, E>,
    P3: Parser<'a, T, E>,
    P4: Parser<'a, T, E>,
    P5: Parser<'a, T, E>,
    P6: Parser<'a, T, E>,
    P7: Parser<'a, T, E>,
    P8: Parser<'a, T, E>,
    P9: Parser<'a, T, E>,
    P10: Parser<'a, T, E>,
 {
    open spec fn backtracks(&self) -> bool {
        true
    }

    open spec fn parsed(&self, src: Seq<char>, entry: int, exit: int, r: Result<T, Vec<E>>) -> bool {
        match r {
            Ok(t) => choice10_won(self.elems(), src, entry, exit, t),
            Err(es) => exit == entry && choice10_all_failed(self.elems(), src, entry, es@),
        }
    }

    fn parse(&self, buf: &mut Buffer<'a>) -> (r: Result<T, Vec<E>>) {
        let entry = buf.index();
        let mut errs: Vec<E> = Vec::new();
        let ghost mut fail1: int = 0;
        let ghost mut fail2: int = 0;
        let ghost mut fail3: int = 0;
        let ghost mut fail4: int = 0;
        let ghost mut fail5: int = 0;
        let ghost mut fail6: int = 0;
        let ghost mut fail7: int = 0;
        let ghost mut fail8: int = 0;
        let ghost mut fail9: int = 0;
        let ghost mut fail10: int = 0;
        match self.choices.0.parse(buf) {
            Ok(t) => {
                proof {
                    assert(self.choices.0.parsed(old(buf).src(), old(buf).pos(), buf.pos(), Ok(
                    t)));
                    assert(choice10_won(self.elems(), old(buf).src(), old(buf).pos(), buf.pos(), t));
                }
                return Ok(t);
            },
            Err(e) => {
                proof {
                    fail1 = buf.pos();
                }
                errs.push(e);
                buf.set_index(entry);
            },
        }
        match self.choices.1.parse(buf) {
            Ok(t) => {
                proof {
                    assert(self.choices.1.parsed(old(buf).src(), old(buf).pos(), buf.pos(), Ok(
                    t)));
                    assert(choice10_won(self.elems(), old(buf).src(), old(buf).pos(), buf.pos(), t));
                }
                return Ok(t);
            },
            Err(e) => {
                proof {
                    fail2 = buf.pos();
                }
                errs.push(e);
                buf.set_index(entry);
            },
        }
        match self.choices.2.parse(buf) {
            Ok(t) => {
                proof {
                    assert(self.choices.2.parsed(old(buf).src(), old(buf).pos(), buf.pos(), Ok(
                    t)));
                    assert(choice10_won(self.elems(), old(buf).src(), old(buf).pos(), buf.pos(), t));
                }
                return Ok(t);
            },
            Err(e) => {
                proof {
                    fail3 = buf.pos();
                }
                errs.push(e);
                buf.set_index(entry);
            },
        }
        match self.choices.3.parse(buf) {
            Ok(t) => {
                proof {
                    assert(self.choices.3.parsed(old(buf).src(), old(buf).pos(), buf.pos(), Ok(
                    t)));
                    assert(choice10_won(self.elems(), old(buf).src(), old(buf).pos(), buf.pos(), t));
                }
                return Ok(t);
            },
            Err(e) => {
                proof {
                    fail4 = buf.pos();
                }
                errs.push(e);
                buf.set_index(entry);
            },
        }
        match self.choices.4.parse(buf) {
            Ok(t) => {
                proof {
                    assert(self.choices.4.parsed(old(buf).src(), old(buf).pos(), buf.pos(), Ok(
                    t)));
                    assert(choice10_won(self.elems(), old(buf).src(), old(buf).pos(), buf.pos(), t));
                }
                return Ok(t);
            },
            Err(e) => {
                proof {
                    fail5 = buf.pos();
                }
                errs.push(e);
                buf.set_index(entry);
            },
        }
        match self.choices.5.parse(buf) {
            Ok(t) => {
                proof {
                    assert(self.choices.5.parsed(old(buf).src(), old(buf).pos(), buf.pos(), Ok(
                    t)));
                    assert(choice10_won(self.elems(), old(buf).src(), old(buf).pos(), buf.pos(), t));
                }
                return Ok(t);
            },
            Err(e) => {
                proof {
                    fail6 = buf.pos();
                }
                errs.push(e);
                buf.set_index(entry);
            },
        }
        match self.choices.6.parse(buf) {
            Ok(t) => {
                proof {
                    assert(self.choices.6.parsed(old(buf).src(), old(buf).pos(), buf.pos(), Ok(
                    t)));
                    assert(choice10_won(self.elems(), old(buf).src(), old(buf).pos(), buf.pos(), t));
                }
                return Ok(t);
            },
            Err(e) => {
                proof {
                    fail7 = buf.pos();
                }
                errs.push(e);
                buf.set_index(entry);
            },
        }
        match self.choices.7.parse(buf) {
            Ok(t) => {
                proof {
                    assert(self.choices.7.parsed(old(buf).src(), old(buf).pos(), buf.pos(), Ok(
                    t)));
                    assert(choice10_won(self.elems(), old(buf).src(), old(buf).pos(), buf.pos(), t));
                }
                return Ok(t);
            },
            Err(e) => {
                proof {
                    fail8 = buf.pos();
                }
                errs.push(e);
                buf.set_index(entry);
            },
        }
        match self.choices.8.parse(buf) {
            Ok(t) => {
                proof {
                    assert(self.choices.8.parsed(old(buf).src(), old(buf).pos(), buf.pos(), Ok(
                    t)));
                    assert(choice10_won(self.elems(), old(buf).src(), old(buf).pos(), buf.pos(), t));
                }
                return Ok(t);
            },
            Err(e) => {
                proof {
                    fail9 = buf.pos();
                }
                errs.push(e);
                buf.set_index(entry);
            },
        }
        match self.choices.9.parse(buf) {
            Ok(t) => {
                proof {
                    assert(self.choices.9.parsed(old(buf).src(), old(buf).pos(), buf.pos(), Ok(
                    t)));
                    assert(choice10_won(self.elems(), old(buf).src(), old(buf).pos(), buf.pos(), t));
                }
                return Ok(t);
            },
            Err(e) => {
                proof {
                    fail10 = buf.pos();
                }
                errs.push(e);
                buf.set_index(entry);
            },
        }
        proof {
            assert(self.choices.0.parsed(old(buf).src(), old(buf).pos(), fail1, Err(errs@[0])));
            assert(self.choices.1.parsed(old(buf).src(), old(buf).pos(), fail2, Err(errs@[1])));
            assert(self.choices.2.parsed(old(buf).src(), old(buf).pos(), fail3, Err(errs@[2])));
            assert(self.choices.3.parsed(old(buf).src(), old(buf).pos(), fail4, Err(errs@[3])));
            assert(self.choices.4.parsed(old(buf).src(), old(buf).pos(), fail5, Err(errs@[4])));
            assert(self.choices.5.parsed(old(buf).src(), old(buf).pos(), fail6, Err(errs@[5])));
            assert(self.choices.6.parsed(old(buf).src(), old(buf).pos(), fail7, Err(errs@[6])));
            assert(self.choices.7.parsed(old(buf).src(), old(buf).pos(), fail8, Err(errs@[7])));
            assert(self.choices.8.parsed(old(buf).src(), old(buf).pos(), fail9, Err(errs@[8])));
            assert(self.choices.9.parsed(old(buf).src(), old(buf).pos(), fail10, Err(errs@[9])));
            assert(choice10_all_failed(self.elems(), old(buf).src(), old(buf).pos(), errs@));
        }
        Err(errs)
    }
}

impl<'a, T, E, P1, P2, P3, P4, P5, P6, P7, P8, P9, P10> ParserExt3<'a, Vec<E>, T> for (P1, P2, P3, P4, P5, P6, P7, P8, P9, P10) where
    P1: Parser<'a, T, E>,
    P2: Parser<'a, T, E>,
    P3: Parser<'a, T, E>,
    P4: Parser<'a, T, E>,
    P5: Parser<'a, T, E>,
    P6: Parser<'a, T, E>,
    P7: Parser<'a, T, E>,
    P8: Parser<'a, T, E>,
    P9: Parser<'a, T, E>,
    P10: Parser<'a, T, E>,
 {
    fn any(self) -> (r: Choice<Self>) {
        Choice::new(self)
    }
}

} // verus!
