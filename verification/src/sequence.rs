//! Ordered conjunction: a tuple of capabilities is itself a capability that
//! runs its children left to right.
//!
//! Each child starts where the previous one stopped. The first child failure
//! aborts the whole tuple: the cursor is restored to the tuple's entry
//! position, the partial results are discarded, and later children are never
//! attempted, so a failed sequence is atomic. The parsing relation of each
//! arity says so: a success chains the children's own relations through the
//! intermediate positions, and a failure carries the failing child's error
//! with every earlier child having succeeded up to that point.

use vstd::prelude::*;
use crate::buffer::Buffer;
use crate::parser::Parser;

verus! {

/// All 2 children succeeded in order, each starting where the previous one
/// stopped: the first at `entry`, the last stopping at `exit`.
pub open spec fn seq2_chain<'a, TA, TB, A, B, ERR>(
    parsers: (A, B),
    src: Seq<char>,
    entry: int,
    exit: int,
    t: (TA, TB),
) -> bool where
    A: Parser<'a, TA, ERR>,
    B: Parser<'a, TB, ERR>,
 {
    exists|m1: int|
        #[trigger] parsers.0.parsed(src, entry, m1, Ok(t.0)) && parsers.1.parsed(src, m1, exit, Ok(t.1))
}

/// Some child failed with condition `e` after every earlier child succeeded
/// in order from `entry`; the children after it were never attempted.
pub open spec fn seq2_broke<'a, TA, TB, A, B, ERR>(
    parsers: (A, B),
    src: Seq<char>,
    entry: int,
    e: ERR,
) -> bool where
    A: Parser<'a, TA, ERR>,
    B: Parser<'a, TB, ERR>,
 {
    (exists|fpos: int| #[trigger] parsers.0.parsed(src, entry, fpos, Err(e)))
        || (exists|t0: TA, m1: int, fpos: int|
        #![trigger parsers.0.parsed(src, entry, m1, Ok(t0)), parsers.1.parsed(src, m1, fpos, Err(e))]
        { parsers.0.parsed(src, entry, m1, Ok(t0)) && parsers.1.parsed(src, m1, fpos, Err(e)) })
}

impl<'a, TA, TB, A, B, ERR> Parser<'a, (TA, TB), ERR> for (A, B) where
    A: Parser<'a, TA, ERR>,
    B: Parser<'a, TB, ERR>,
 {
    open spec fn backtracks(&self) -> bool {
        true
    }

    open spec fn parsed(&self, src: Seq<char>, entry: int, exit: int, r: Result<
        (TA, TB),
        ERR,
    >) -> bool {
        match r {
            Ok(t) => seq2_chain(*self, src, entry, exit, t),
            Err(e) => exit == entry && seq2_broke(*self, src, entry, e),
        }
    }

    fn parse(&self, buf: &mut Buffer<'a>) -> (r: Result<(TA, TB), ERR>) {
        let entry = buf.index();
        let a = match self.0.parse(buf) {
            Ok(t) => t,
            Err(e) => {
                let ghost fpos = buf.pos();
                buf.set_index(entry);
                proof {
                    assert(seq2_broke(*self, old(buf).src(), old(buf).pos(), e));
                }
                return Err(e);
            },
        };
        let ghost m1 = buf.pos();
        let b = match self.1.parse(buf) {
            Ok(t) => t,
            Err(e) => {
                let ghost fpos = buf.pos();
                buf.set_index(entry);
                proof {
                    assert(seq2_broke(*self, old(buf).src(), old(buf).pos(), e));
                }
                return Err(e);
            },
        };
        let out = (a, b);
        proof {
            assert(self.0.parsed(old(buf).src(), old(buf).pos(), m1, Ok(out.0)));
            assert(self.1.parsed(old(buf).src(), m1, buf.pos(), Ok(out.1)));
            assert(seq2_chain(*self, old(buf).src(), old(buf).pos(), buf.pos(), out));
        }
        Ok(out)
    }
}

/// All 3 children succeeded in order, each starting where the previous one
/// stopped: the first at `entry`, the last stopping at `exit`.
pub open spec fn seq3_chain<'a, TA, TB, TC, A, B, C, ERR>(
    parsers: (A, B, C),
    src: Seq<char>,
    entry: int,
    exit: int,
    t: (TA, TB, TC),
) -> bool where
    A: Parser<'a, TA, ERR>,
    B: Parser<'a, TB, ERR>,
    C: Parser<'a, TC, ERR>,
 {
    exists|m1: int, m2: int|
        #![trigger parsers.0.parsed(src, entry, m1, Ok(t.0)), parsers.1.parsed(src, m1, m2, Ok(t.1))]
        { parsers.0.parsed(src, entry, m1, Ok(t.0)) && parsers.1.parsed(src, m1, m2, Ok(t.1)) && parsers.2.parsed(src, m2, exit, Ok(t.2)) }
}

/// Some child failed with condition `e` after every earlier child succeeded
/// in order from `entry`; the children after it were never attempted.
pub open spec fn seq3_broke<'a, TA, TB, TC, A, B, C, ERR>(
    parsers: (A, B, C),
    src: Seq<char>,
    entry: int,
    e: ERR,
) -> bool where
    A: Parser<'a, TA, ERR>,
    B: Parser<'a, TB, ERR>,
    C: Parser<'a, TC, ERR>,
 {
    (exists|fpos: int| #[trigger] parsers.0.parsed(src, entry, fpos, Err(e)))
        || (exists|t0: TA, m1: int, fpos: int|
        #![trigger parsers.0.parsed(src, entry, m1, Ok(t0)), parsers.1.parsed(src, m1, fpos, Err(e))]
        { parsers.0.parsed(src, entry, m1, Ok(t0)) && parsers.1.parsed(src, m1, fpos, Err(e)) })
        || (exists|t0: TA, t1: TB, m1: int, m2: int, fpos: int|
        #![trigger parsers.0.parsed(src, entry, m1, Ok(t0)), parsers.1.parsed(src, m1, m2, Ok(t1)), parsers.2.parsed(src, m2, fpos, Err(e))]
        { parsers.0.parsed(src, entry, m1, Ok(t0)) && parsers.1.parsed(src, m1, m2, Ok(t1)) && parsers.2.parsed(src, m2, fpos, Err(e)) })
}

impl<'a, TA, TB, TC, A, B, C, ERR> Parser<'a, (TA, TB, TC), ERR> for (A, B, C) where
    A: Parser<'a, TA, ERR>,
    B: Parser<'a, TB, ERR>,
    C: Parser<'a, TC, ERR>,
 {
    open spec fn backtracks(&self) -> bool {
        true
    }

    open spec fn parsed(&self, src: Seq<char>, entry: int, exit: int, r: Result<
        (TA, TB, TC),
        ERR,
    >) -> bool {
        match r {
            Ok(t) => seq3_chain(*self, src, entry, exit, t),
            Err(e) => exit == entry && seq3_broke(*self, src, entry, e),
        }
    }

    fn parse(&self, buf: &mut Buffer<'a>) -> (r: Result<(TA, TB, TC), ERR>) {
        let entry = buf.index();
        let a = match self.0.parse(buf) {
            Ok(t) => t,
            Err(e) => {
                let ghost fpos = buf.pos();
                buf.set_index(entry);
                proof {
                    assert(seq3_broke(*self, old(buf).src(), old(buf).pos(), e));
                }
                return Err(e);
            },
        };
        let ghost m1 = buf.pos();
        let b = match self.1.parse(buf) {
            Ok(t) => t,
            Err(e) => {
                let ghost fpos = buf.pos();
                buf.set_index(entry);
                proof {
                    assert(seq3_broke(*self, old(buf).src(), old(buf).pos(), e));
                }
                return Err(e);
            },
        };
        let ghost m2 = buf.pos();
        let c = match self.2.parse(buf) {
            Ok(t) => t,
            Err(e) => {
                let ghost fpos = buf.pos();
                buf.set_index(entry);
                proof {
                    assert(seq3_broke(*self, old(buf).src(), old(buf).pos(), e));
                }
                return Err(e);
            },
        };
        let out = (a, b, c);
        proof {
            assert(self.0.parsed(old(buf).src(), old(buf).pos(), m1, Ok(out.0)));
            assert(self.1.parsed(old(buf).src(), m1, m2, Ok(out.1)));
            assert(self.2.parsed(old(buf).src(), m2, buf.pos(), Ok(out.2)));
            assert(seq3_chain(*self, old(buf).src(), old(buf).pos(), buf.pos(), out));
        }
        Ok(out)
    }
}

/// All 4 children succeeded in order, each starting where the previous one
/// stopped: the first at `entry`, the last stopping at `exit`.
pub open spec fn seq4_chain<'a, TA, TB, TC, TD, A, B, C, D, ERR>(
    parsers: (A, B, C, D),
    src: Seq<char>,
    entry: int,
    exit: int,
    t: (TA, TB, TC, TD),
) -> bool where
    A: Parser<'a, TA, ERR>,
    B: Parser<'a, TB, ERR>,
    C: Parser<'a, TC, ERR>,
    D: Parser<'a, TD, ERR>,
 {
    exists|m1: int, m2: int, m3: int|
        #![trigger parsers.0.parsed(src, entry, m1, Ok(t.0)), parsers.1.parsed(src, m1, m2, Ok(t.1)), parsers.2.parsed(src, m2, m3, Ok(t.2))]
        { parsers.0.parsed(src, entry, m1, Ok(t.0)) && parsers.1.parsed(src, m1, m2, Ok(t.1)) && parsers.2.parsed(src, m2, m3, Ok(t.2)) && parsers.3.parsed(src, m3, exit, Ok(t.3)) }
}

/// Some child failed with condition `e` after every earlier child succeeded
/// in order from `entry`; the children after it were never attempted.
pub open spec fn seq4_broke<'a, TA, TB, TC, TD, A, B, C, D, ERR>(
    parsers: (A, B, C, D),
    src: Seq<char>,
    entry: int,
    e: ERR,
) -> bool where
    A: Parser<'a, TA, ERR>,
    B: Parser<'a, TB, ERR>,
    C: Parser<'a, TC, ERR>,
    D: Parser<'a, TD, ERR>,
 {
    (exists|fpos: int| #[trigger] parsers.0.parsed(src, entry, fpos, Err(e)))
        || (exists|t0: TA, m1: int, fpos: int|
        #![trigger parsers.0.parsed(src, entry, m1, Ok(t0)), parsers.1.parsed(src, m1, fpos, Err(e))]
        { parsers.0.parsed(src, entry, m1, Ok(t0)) && parsers.1.parsed(src, m1, fpos, Err(e)) })
        || (exists|t0: TA, t1: TB, m1: int, m2: int, fpos: int|
        #![trigger parsers.0.parsed(src, entry, m1, Ok(t0)), parsers.1.parsed(src, m1, m2, Ok(t1)), parsers.2.parsed(src, m2, fpos, Err(e))]
        { parsers.0.parsed(src, entry, m1, Ok(t0)) && parsers.1.parsed(src, m1, m2, Ok(t1)) && parsers.2.parsed(src, m2, fpos, Err(e)) })
        || (exists|t0: TA, t1: TB, t2: TC, m1: int, m2: int, m3: int, fpos: int|
        #![trigger parsers.0.parsed(src, entry, m1, Ok(t0)), parsers.1.parsed(src, m1, m2, Ok(t1)), parsers.2.parsed(src, m2, m3, Ok(t2)), parsers.3.parsed(src, m3, fpos, Err(e))]
        { parsers.0.parsed(src, entry, m1, Ok(t0)) && parsers.1.parsed(src, m1, m2, Ok(t1)) && parsers.2.parsed(src, m2, m3, Ok(t2)) && parsers.3.parsed(src, m3, fpos, Err(e)) })
}

impl<'a, TA, TB, TC, TD, A, B, C, D, ERR> Parser<'a, (TA, TB, TC, TD), ERR> for (A, B, C, D) where
    A: Parser<'a, TA, ERR>,
    B: Parser<'a, TB, ERR>,
    C: Parser<'a, TC, ERR>,
    D: Parser<'a, TD, ERR>,
 {
    open spec fn backtracks(&self) -> bool {
        true
    }

    open spec fn parsed(&self, src: Seq<char>, entry: int, exit: int, r: Result<
        (TA, TB, TC, TD),
        ERR,
    >) -> bool {
        match r {
            Ok(t) => seq4_chain(*self, src, entry, exit, t),
            Err(e) => exit == entry && seq4_broke(*self, src, entry, e),
        }
    }

    fn parse(&self, buf: &mut Buffer<'a>) -> (r: Result<(TA, TB, TC, TD), ERR>) {
        let entry = buf.index();
        let a = match self.0.parse(buf) {
            Ok(t) => t,
            Err(e) => {
                let ghost fpos = buf.pos();
                buf.set_index(entry);
                proof {
                    assert(seq4_broke(*self, old(buf).src(), old(buf).pos(), e));
                }
                return Err(e);
            },
        };
        let ghost m1 = buf.pos();
        let b = match self.1.parse(buf) {
            Ok(t) => t,
            Err(e) => {
                let ghost fpos = buf.pos();
                buf.set_index(entry);
                proof {
                    assert(seq4_broke(*self, old(buf).src(), old(buf).pos(), e));
                }
                return Err(e);
            },
        };
        let ghost m2 = buf.pos();
        let c = match self.2.parse(buf) {
            Ok(t) => t,
            Err(e) => {
                let ghost fpos = buf.pos();
                buf.set_index(entry);
                proof {
                    assert(seq4_broke(*self, old(buf).src(), old(buf).pos(), e));
                }
                return Err(e);
            },
        };
        let ghost m3 = buf.pos();
        let d = match self.3.parse(buf) {
            Ok(t) => t,
            Err(e) => {
                let ghost fpos = buf.pos();
                buf.set_index(entry);
                proof {
                    assert(seq4_broke(*self, old(buf).src(), old(buf).pos(), e));
                }
                return Err(e);
            },
        };
        let out = (a, b, c, d);
        proof {
            assert(self.0.parsed(old(buf).src(), old(buf).pos(), m1, Ok(out.0)));
            assert(self.1.parsed(old(buf).src(), m1, m2, Ok(out.1)));
            assert(self.2.parsed(old(buf).src(), m2, m3, Ok(out.2)));
            assert(self.3.parsed(old(buf).src(), m3, buf.pos(), Ok(out.3)));
            assert(seq4_chain(*self, old(buf).src(), old(buf).pos(), buf.pos(), out));
        }
        Ok(out)
    }
}

/// All 5 children succeeded in order, each starting where the previous one
/// stopped: the first at `entry`, the last stopping at `exit`.
pub open spec fn seq5_chain<'a, TA, TB, TC, TD, TE, A, B, C, D, E, ERR>(
    parsers: (A, B, C, D, E),
    src: Seq<char>,
    entry: int,
    exit: int,
    t: (TA, TB, TC, TD, TE),
) -> bool where
    A: Parser<'a, TA, ERR>,
    B: Parser<'a, TB, ERR>,
    C: Parser<'a, TC, ERR>,
    D: Parser<'a, TD, ERR>,
    E: Parser<'a, TE, ERR>,
 {
    exists|m1: int, m2: int, m3: int, m4: int|
        #![trigger parsers.0.parsed(src, entry, m1, Ok(t.0)), parsers.1.parsed(src, m1, m2, Ok(t.1)), parsers.2.parsed(src, m2, m3, Ok(t.2)), parsers.3.parsed(src, m3, m4, Ok(t.3))]
        { parsers.0.parsed(src, entry, m1, Ok(t.0)) && parsers.1.parsed(src, m1, m2, Ok(t.1)) && parsers.2.parsed(src, m2, m3, Ok(t.2)) && parsers.3.parsed(src, m3, m4, Ok(t.3)) && parsers.4.parsed(src, m4, exit, Ok(t.4)) }
}

/// Some child failed with condition `e` after every earlier child succeeded
/// in order from `entry`; the children after it were never attempted.
pub open spec fn seq5_broke<'a, TA, TB, TC, TD, TE, A, B, C, D, E, ERR>(
    parsers: (A, B, C, D, E),
    src: Seq<char>,
    entry: int,
    e: ERR,
) -> bool where
    A: Parser<'a, TA, ERR>,
    B: Parser<'a, TB, ERR>,
    C: Parser<'a, TC, ERR>,
    D: Parser<'a, TD, ERR>,
    E: Parser<'a, TE, ERR>,
 {
    (exists|fpos: int| #[trigger] parsers.0.parsed(src, entry, fpos, Err(e)))
        || (exists|t0: TA, m1: int, fpos: int|
        #![trigger parsers.0.parsed(src, entry, m1, Ok(t0)), parsers.1.parsed(src, m1, fpos, Err(e))]
        { parsers.0.parsed(src, entry, m1, Ok(t0)) && parsers.1.parsed(src, m1, fpos, Err(e)) })
        || (exists|t0: TA, t1: TB, m1: int, m2: int, fpos: int|
        #![trigger parsers.0.parsed(src, entry, m1, Ok(t0)), parsers.1.parsed(src, m1, m2, Ok(t1)), parsers.2.parsed(src, m2, fpos, Err(e))]
        { parsers.0.parsed(src, entry, m1, Ok(t0)) && parsers.1.parsed(src, m1, m2, Ok(t1)) && parsers.2.parsed(src, m2, fpos, Err(e)) })
        || (exists|t0: TA, t1: TB, t2: TC, m1: int, m2: int, m3: int, fpos: int|
        #![trigger parsers.0.parsed(src, entry, m1, Ok(t0)), parsers.1.parsed(src, m1, m2, Ok(t1)), parsers.2.parsed(src, m2, m3, Ok(t2)), parsers.3.parsed(src, m3, fpos, Err(e))]
        { parsers.0.parsed(src, entry, m1, Ok(t0)) && parsers.1.parsed(src, m1, m2, Ok(t1)) && parsers.2.parsed(src, m2, m3, Ok(t2)) && parsers.3.parsed(src, m3, fpos, Err(e)) })
        || (exists|t0: TA, t1: TB, t2: TC, t3: TD, m1: int, m2: int, m3: int, m4: int, fpos: int|
        #![trigger parsers.0.parsed(src, entry, m1, Ok(t0)), parsers.1.parsed(src, m1, m2, Ok(t1)), parsers.2.parsed(src, m2, m3, Ok(t2)), parsers.3.parsed(src, m3, m4, Ok(t3)), parsers.4.parsed(src, m4, fpos, Err(e))]
        { parsers.0.parsed(src, entry, m1, Ok(t0)) && parsers.1.parsed(src, m1, m2, Ok(t1)) && parsers.2.parsed(src, m2, m3, Ok(t2)) && parsers.3.parsed(src, m3, m4, Ok(t3)) && parsers.4.parsed(src, m4, fpos, Err(e)) })
}

impl<'a, TA, TB, TC, TD, TE, A, B, C, D, E, ERR> Parser<'a, (TA, TB, TC, TD, TE), ERR> for (A, B, C, D, E) where
    A: Parser<'a, TA, ERR>,
    B: Parser<'a, TB, ERR>,
    C: Parser<'a, TC, ERR>,
    D: Parser<'a, TD, ERR>,
    E: Parser<'a, TE, ERR>,
 {
    open spec fn backtracks(&self) -> bool {
        true
    }

    open spec fn parsed(&self, src: Seq<char>, entry: int, exit: int, r: Result<
        (TA, TB, TC, TD, TE),
        ERR,
    >) -> bool {
        match r {
            Ok(t) => seq5_chain(*self, src, entry, exit, t),
            Err(e) => exit == entry && seq5_broke(*self, src, entry, e),
        }
    }

    fn parse(&self, buf: &mut Buffer<'a>) -> (r: Result<(TA, TB, TC, TD, TE), ERR>) {
        let entry = buf.index();
        let a = match self.0.parse(buf) {
            Ok(t) => t,
            Err(e) => {
                let ghost fpos = buf.pos();
                buf.set_index(entry);
                proof {
                    assert(seq5_broke(*self, old(buf).src(), old(buf).pos(), e));
                }
                return Err(e);
            },
        };
        let ghost m1 = buf.pos();
        let b = match self.1.parse(buf) {
            Ok(t) => t,
            Err(e) => {
                let ghost fpos = buf.pos();
                buf.set_index(entry);
                proof {
                    assert(seq5_broke(*self, old(buf).src(), old(buf).pos(), e));
                }
                return Err(e);
            },
        };
        let ghost m2 = buf.pos();
        let c = match self.2.parse(buf) {
            Ok(t) => t,
            Err(e) => {
                let ghost fpos = buf.pos();
                buf.set_index(entry);
                proof {
                    assert(seq5_broke(*self, old(buf).src(), old(buf).pos(), e));
                }
                return Err(e);
            },
        };
        let ghost m3 = buf.pos();
        let d = match self.3.parse(buf) {
            Ok(t) => t,
            Err(e) => {
                let ghost fpos = buf.pos();
                buf.set_index(entry);
                proof {
                    assert(seq5_broke(*self, old(buf).src(), old(buf).pos(), e));
                }
                return Err(e);
            },
        };
        let ghost m4 = buf.pos();
        let e = match self.4.parse(buf) {
            Ok(t) => t,
            Err(e) => {
                let ghost fpos = buf.pos();
                buf.set_index(entry);
                proof {
                    assert(seq5_broke(*self, old(buf).src(), old(buf).pos(), e));
                }
                return Err(e);
            },
        };
        let out = (a, b, c, d, e);
        proof {
            assert(self.0.parsed(old(buf).src(), old(buf).pos(), m1, Ok(out.0)));
            assert(self.1.parsed(old(buf).src(), m1, m2, Ok(out.1)));
            assert(self.2.parsed(old(buf).src(), m2, m3, Ok(out.2)));
            assert(self.3.parsed(old(buf).src(), m3, m4, Ok(out.3)));
            assert(self.4.parsed(old(buf).src(), m4, buf.pos(), Ok(out.4)));
            assert(seq5_chain(*self, old(buf).src(), old(buf).pos(), buf.pos(), out));
        }
        Ok(out)
    }
}

/// All 6 children succeeded in order, each starting where the previous one
/// stopped: the first at `entry`, the last stopping at `exit`.
pub open spec fn seq6_chain<'a, TA, TB, TC, TD, TE, TF, A, B, C, D, E, F, ERR>(
    parsers: (A, B, C, D, E, F),
    src: Seq<char>,
    entry: int,
    exit: int,
    t: (TA, TB, TC, TD, TE, TF),
) -> bool where
    A: Parser<'a, TA, ERR>,
    B: Parser<'a, TB, ERR>,
    C: Parser<'a, TC, ERR>,
    D: Parser<'a, TD, ERR>,
    E: Parser<'a, TE, ERR>,
    F: Parser<'a, TF, ERR>,
 {
    exists|m1: int, m2: int, m3: int, m4: int, m5: int|
        #![trigger parsers.0.parsed(src, entry, m1, Ok(t.0)), parsers.1.parsed(src, m1, m2, Ok(t.1)), parsers.2.parsed(src, m2, m3, Ok(t.2)), parsers.3.parsed(src, m3, m4, Ok(t.3)), parsers.4.parsed(src, m4, m5, Ok(t.4))]
        { parsers.0.parsed(src, entry, m1, Ok(t.0)) && parsers.1.parsed(src, m1, m2, Ok(t.1)) && parsers.2.parsed(src, m2, m3, Ok(t.2)) && parsers.3.parsed(src, m3, m4, Ok(t.3)) && parsers.4.parsed(src, m4, m5, Ok(t.4)) && parsers.5.parsed(src, m5, exit, Ok(t.5)) }
}

/// Some child failed with condition `e` after every earlier child succeeded
/// in order from `entry`; the children after it were never attempted.
pub open spec fn seq6_broke<'a, TA, TB, TC, TD, TE, TF, A, B, C, D, E, F, ERR>(
    parsers: (A, B, C, D, E, F),
    src: Seq<char>,
    entry: int,
    e: ERR,
) -> bool where
    A: Parser<'a, TA, ERR>,
    B: Parser<'a, TB, ERR>,
    C: Parser<'a, TC, ERR>,
    D: Parser<'a, TD, ERR>,
    E: Parser<'a, TE, ERR>,
    F: Parser<'a, TF, ERR>,
 {
    (exists|fpos: int| #[trigger] parsers.0.parsed(src, entry, fpos, Err(e)))
        || (exists|t0: TA, m1: int, fpos: int|
        #![trigger parsers.0.parsed(src, entry, m1, Ok(t0)), parsers.1.parsed(src, m1, fpos, Err(e))]
        { parsers.0.parsed(src, entry, m1, Ok(t0)) && parsers.1.parsed(src, m1, fpos, Err(e)) })
        || (exists|t0: TA, t1: TB, m1: int, m2: int, fpos: int|
        #![trigger parsers.0.parsed(src, entry, m1, Ok(t0)), parsers.1.parsed(src, m1, m2, Ok(t1)), parsers.2.parsed(src, m2, fpos, Err(e))]
        { parsers.0.parsed(src, entry, m1, Ok(t0)) && parsers.1.parsed(src, m1, m2, Ok(t1)) && parsers.2.parsed(src, m2, fpos, Err(e)) })
        || (exists|t0: TA, t1: TB, t2: TC, m1: int, m2: int, m3: int, fpos: int|
        #![trigger parsers.0.parsed(src, entry, m1, Ok(t0)), parsers.1.parsed(src, m1, m2, Ok(t1)), parsers.2.parsed(src, m2, m3, Ok(t2)), parsers.3.parsed(src, m3, fpos, Err(e))]
        { parsers.0.parsed(src, entry, m1, Ok(t0)) && parsers.1.parsed(src, m1, m2, Ok(t1)) && parsers.2.parsed(src, m2, m3, Ok(t2)) && parsers.3.parsed(src, m3, fpos, Err(e)) })
        || (exists|t0: TA, t1: TB, t2: TC, t3: TD, m1: int, m2: int, m3: int, m4: int, fpos: int|
        #![trigger parsers.0.parsed(src, entry, m1, Ok(t0)), parsers.1.parsed(src, m1, m2, Ok(t1)), parsers.2.parsed(src, m2, m3, Ok(t2)), parsers.3.parsed(src, m3, m4, Ok(t3)), parsers.4.parsed(src, m4, fpos, Err(e))]
        { parsers.0.parsed(src, entry, m1, Ok(t0)) && parsers.1.parsed(src, m1, m2, Ok(t1)) && parsers.2.parsed(src, m2, m3, Ok(t2)) && parsers.3.parsed(src, m3, m4, Ok(t3)) && parsers.4.parsed(src, m4, fpos, Err(e)) })
        || (exists|t0: TA, t1: TB, t2: TC, t3: TD, t4: TE, m1: int, m2: int, m3: int, m4: int, m5: int, fpos: int|
        #![trigger parsers.0.parsed(src, entry, m1, Ok(t0)), parsers.1.parsed(src, m1, m2, Ok(t1)), parsers.2.parsed(src, m2, m3, Ok(t2)), parsers.3.parsed(src, m3, m4, Ok(t3)), parsers.4.parsed(src, m4, m5, Ok(t4)), parsers.5.parsed(src, m5, fpos, Err(e))]
        { parsers.0.parsed(src, entry, m1, Ok(t0)) && parsers.1.parsed(src, m1, m2, Ok(t1)) && parsers.2.parsed(src, m2, m3, Ok(t2)) && parsers.3.parsed(src, m3, m4, Ok(t3)) && parsers.4.parsed(src, m4, m5, Ok(t4)) && parsers.5.parsed(src, m5, fpos, Err(e)) })
}

impl<'a, TA, TB, TC, TD, TE, TF, A, B, C, D, E, F, ERR> Parser<'a, (TA, TB, TC, TD, TE, TF), ERR> for (A, B, C, D, E, F) where
    A: Parser<'a, TA, ERR>,
    B: Parser<'a, TB, ERR>,
    C: Parser<'a, TC, ERR>,
    D: Parser<'a, TD, ERR>,
    E: Parser<'a, TE, ERR>,
    F: Parser<'a, TF, ERR>,
 {
    open spec fn backtracks(&self) -> bool {
        true
    }

    open spec fn parsed(&self, src: Seq<char>, entry: int, exit: int, r: Result<
        (TA, TB, TC, TD, TE, TF),
        ERR,
    >) -> bool {
        match r {
            Ok(t) => seq6_chain(*self, src, entry, exit, t),
            Err(e) => exit == entry && seq6_broke(*self, src, entry, e),
        }
    }

    fn parse(&self, buf: &mut Buffer<'a>) -> (r: Result<(TA, TB, TC, TD, TE, TF), ERR>) {
        let entry = buf.index();
        let a = match self.0.parse(buf) {
            Ok(t) => t,
            Err(e) => {
                let ghost fpos = buf.pos();
                buf.set_index(entry);
                proof {
                    assert(seq6_broke(*self, old(buf).src(), old(buf).pos(), e));
                }
                return Err(e);
            },
        };
        let ghost m1 = buf.pos();
        let b = match self.1.parse(buf) {
            Ok(t) => t,
            Err(e) => {
                let ghost fpos = buf.pos();
                buf.set_index(entry);
                proof {
                    assert(seq6_broke(*self, old(buf).src(), old(buf).pos(), e));
                }
                return Err(e);
            },
        };
        let ghost m2 = buf.pos();
        let c = match self.2.parse(buf) {
            Ok(t) => t,
            Err(e) => {
                let ghost fpos = buf.pos();
                buf.set_index(entry);
                proof {
                    assert(seq6_broke(*self, old(buf).src(), old(buf).pos(), e));
                }
                return Err(e);
            },
        };
        let ghost m3 = buf.pos();
        let d = match self.3.parse(buf) {
            Ok(t) => t,
            Err(e) => {
                let ghost fpos = buf.pos();
                buf.set_index(entry);
                proof {
                    assert(seq6_broke(*self, old(buf).src(), old(buf).pos(), e));
                }
                return Err(e);
            },
        };
        let ghost m4 = buf.pos();
        let e = match self.4.parse(buf) {
            Ok(t) => t,
            Err(e) => {
                let ghost fpos = buf.pos();
                buf.set_index(entry);
                proof {
                    assert(seq6_broke(*self, old(buf).src(), old(buf).pos(), e));
                }
                return Err(e);
            },
        };
        let ghost m5 = buf.pos();
        let f = match self.5.parse(buf) {
            Ok(t) => t,
            Err(e) => {
                let ghost fpos = buf.pos();
                buf.set_index(entry);
                proof {
                    assert(seq6_broke(*self, old(buf).src(), old(buf).pos(), e));
                }
                return Err(e);
            },
        };
        let out = (a, b, c, d, e, f);
        proof {
            assert(self.0.parsed(old(buf).src(), old(buf).pos(), m1, Ok(out.0)));
            assert(self.1.parsed(old(buf).src(), m1, m2, Ok(out.1)));
            assert(self.2.parsed(old(buf).src(), m2, m3, Ok(out.2)));
            assert(self.3.parsed(old(buf).src(), m3, m4, Ok(out.3)));
            assert(self.4.parsed(old(buf).src(), m4, m5, Ok(out.4)));
            assert(self.5.parsed(old(buf).src(), m5, buf.pos(), Ok(out.5)));
            assert(seq6_chain(*self, old(buf).src(), old(buf).pos(), buf.pos(), out));
        }
        Ok(out)
    }
}

/// All 7 children succeeded in order, each starting where the previous one
/// stopped: the first at `entry`, the last stopping at `exit`.
pub open spec fn seq7_chain<'a, TA, TB, TC, TD, TE, TF, TG, A, B, C, D, E, F, G, ERR>(
    parsers: (A, B, C, D, E, F, G),
    src: Seq<char>,
    entry: int,
    exit: int,
    t: (TA, TB, TC, TD, TE, TF, TG),
) -> bool where
    A: Parser<'a, TA, ERR>,
    B: Parser<'a, TB, ERR>,
    C: Parser<'a, TC, ERR>,
    D: Parser<'a, TD, ERR>,
    E: Parser<'a, TE, ERR>,
    F: Parser<'a, TF, ERR>,
    G: Parser<'a, TG, ERR>,
 {
    exists|m1: int, m2: int, m3: int, m4: int, m5: int, m6: int|
        #![trigger parsers.0.parsed(src, entry, m1, Ok(t.0)), parsers.1.parsed(src, m1, m2, Ok(t.1)), parsers.2.parsed(src, m2, m3, Ok(t.2)), parsers.3.parsed(src, m3, m4, Ok(t.3)), parsers.4.parsed(src, m4, m5, Ok(t.4)), parsers.5.parsed(src, m5, m6, Ok(t.5))]
        { parsers.0.parsed(src, entry, m1, Ok(t.0)) && parsers.1.parsed(src, m1, m2, Ok(t.1)) && parsers.2.parsed(src, m2, m3, Ok(t.2)) && parsers.3.parsed(src, m3, m4, Ok(t.3)) && parsers.4.parsed(src, m4, m5, Ok(t.4)) && parsers.5.parsed(src, m5, m6, Ok(t.5)) && parsers.6.parsed(src, m6, exit, Ok(t.6)) }
}

/// Some child failed with condition `e` after every earlier child succeeded
/// in order from `entry`; the children after it were never attempted.
pub open spec fn seq7_broke<'a, TA, TB, TC, TD, TE, TF, TG, A, B, C, D, E, F, G, ERR>(
    parsers: (A, B, C, D, E, F, G),
    src: Seq<char>,
    entry: int,
    e: ERR,
) -> bool where
    A: Parser<'a, TA, ERR>,
    B: Parser<'a, TB, ERR>,
    C: Parser<'a, TC, ERR>,
    D: Parser<'a, TD, ERR>,
    E: Parser<'a, TE, ERR>,
    F: Parser<'a, TF, ERR>,
    G: Parser<'a, TG, ERR>,
 {
    (exists|fpos: int| #[trigger] parsers.0.parsed(src, entry, fpos, Err(e)))
        || (exists|t0: TA, m1: int, fpos: int|
        #![trigger parsers.0.parsed(src, entry, m1, Ok(t0)), parsers.1.parsed(src, m1, fpos, Err(e))]
        { parsers.0.parsed(src, entry, m1, Ok(t0)) && parsers.1.parsed(src, m1, fpos, Err(e)) })
        || (exists|t0: TA, t1: TB, m1: int, m2: int, fpos: int|
        #![trigger parsers.0.parsed(src, entry, m1, Ok(t0)), parsers.1.parsed(src, m1, m2, Ok(t1)), parsers.2.parsed(src, m2, fpos, Err(e))]
        { parsers.0.parsed(src, entry, m1, Ok(t0)) && parsers.1.parsed(src, m1, m2, Ok(t1)) && parsers.2.parsed(src, m2, fpos, Err(e)) })
        || (exists|t0: TA, t1: TB, t2: TC, m1: int, m2: int, m3: int, fpos: int|
        #![trigger parsers.0.parsed(src, entry, m1, Ok(t0)), parsers.1.parsed(src, m1, m2, Ok(t1)), parsers.2.parsed(src, m2, m3, Ok(t2)), parsers.3.parsed(src, m3, fpos, Err(e))]
        { parsers.0.parsed(src, entry, m1, Ok(t0)) && parsers.1.parsed(src, m1, m2, Ok(t1)) && parsers.2.parsed(src, m2, m3, Ok(t2)) && parsers.3.parsed(src, m3, fpos, Err(e)) })
        || (exists|t0: TA, t1: TB, t2: TC, t3: TD, m1: int, m2: int, m3: int, m4: int, fpos: int|
        #![trigger parsers.0.parsed(src, entry, m1, Ok(t0)), parsers.1.parsed(src, m1, m2, Ok(t1)), parsers.2.parsed(src, m2, m3, Ok(t2)), parsers.3.parsed(src, m3, m4, Ok(t3)), parsers.4.parsed(src, m4, fpos, Err(e))]
        { parsers.0.parsed(src, entry, m1, Ok(t0)) && parsers.1.parsed(src, m1, m2, Ok(t1)) && parsers.2.parsed(src, m2, m3, Ok(t2)) && parsers.3.parsed(src, m3, m4, Ok(t3)) && parsers.4.parsed(src, m4, fpos, Err(e)) })
        || (exists|t0: TA, t1: TB, t2: TC, t3: TD, t4: TE, m1: int, m2: int, m3: int, m4: int, m5: int, fpos: int|
        #![trigger parsers.0.parsed(src, entry, m1, Ok(t0)), parsers.1.parsed(src, m1, m2, Ok(t1)), parsers.2.parsed(src, m2, m3, Ok(t2)), parsers.3.parsed(src, m3, m4, Ok(t3)), parsers.4.parsed(src, m4, m5, Ok(t4)), parsers.5.parsed(src, m5, fpos, Err(e))]
        { parsers.0.parsed(src, entry, m1, Ok(t0)) && parsers.1.parsed(src, m1, m2, Ok(t1)) && parsers.2.parsed(src, m2, m3, Ok(t2)) && parsers.3.parsed(src, m3, m4, Ok(t3)) && parsers.4.parsed(src, m4, m5, Ok(t4)) && parsers.5.parsed(src, m5, fpos, Err(e)) })
        || (exists|t0: TA, t1: TB, t2: TC, t3: TD, t4: TE, t5: TF, m1: int, m2: int, m3: int, m4: int, m5: int, m6: int, fpos: int|
        #![trigger parsers.0.parsed(src, entry, m1, Ok(t0)), parsers.1.parsed(src, m1, m2, Ok(t1)), parsers.2.parsed(src, m2, m3, Ok(t2)), parsers.3.parsed(src, m3, m4, Ok(t3)), parsers.4.parsed(src, m4, m5, Ok(t4)), parsers.5.parsed(src, m5, m6, Ok(t5)), parsers.6.parsed(src, m6, fpos, Err(e))]
        { parsers.0.parsed(src, entry, m1, Ok(t0)) && parsers.1.parsed(src, m1, m2, Ok(t1)) && parsers.2.parsed(src, m2, m3, Ok(t2)) && parsers.3.parsed(src, m3, m4, Ok(t3)) && parsers.4.parsed(src, m4, m5, Ok(t4)) && parsers.5.parsed(src, m5, m6, Ok(t5)) && parsers.6.parsed(src, m6, fpos, Err(e)) })
}

impl<'a, TA, TB, TC, TD, TE, TF, TG, A, B, C, D, E, F, G, ERR> Parser<'a, (TA, TB, TC, TD, TE, TF, TG), ERR> for (A, B, C, D, E, F, G) where
    A: Parser<'a, TA, ERR>,
    B: Parser<'a, TB, ERR>,
    C: Parser<'a, TC, ERR>,
    D: Parser<'a, TD, ERR>,
    E: Parser<'a, TE, ERR>,
    F: Parser<'a, TF, ERR>,
    G: Parser<'a, TG, ERR>,
 {
    open spec fn backtracks(&self) -> bool {
        true
    }

    open spec fn parsed(&self, src: Seq<char>, entry: int, exit: int, r: Result<
        (TA, TB, TC, TD, TE, TF, TG),
        ERR,
    >) -> bool {
        match r {
            Ok(t) => seq7_chain(*self, src, entry, exit, t),
            Err(e) => exit == entry && seq7_broke(*self, src, entry, e),
        }
    }

    fn parse(&self, buf: &mut Buffer<'a>) -> (r: Result<(TA, TB, TC, TD, TE, TF, TG), ERR>) {
        let entry = buf.index();
        let a = match self.0.parse(buf) {
            Ok(t) => t,
            Err(e) => {
                let ghost fpos = buf.pos();
                buf.set_index(entry);
                proof {
                    assert(seq7_broke(*self, old(buf).src(), old(buf).pos(), e));
                }
                return Err(e);
            },
        };
        let ghost m1 = buf.pos();
        let b = match self.1.parse(buf) {
            Ok(t) => t,
            Err(e) => {
                let ghost fpos = buf.pos();
                buf.set_index(entry);
                proof {
                    assert(seq7_broke(*self, old(buf).src(), old(buf).pos(), e));
                }
                return Err(e);
            },
        };
        let ghost m2 = buf.pos();
        let c = match self.2.parse(buf) {
            Ok(t) => t,
            Err(e) => {
                let ghost fpos = buf.pos();
                buf.set_index(entry);
                proof {
                    assert(seq7_broke(*self, old(buf).src(), old(buf).pos(), e));
                }
                return Err(e);
            },
        };
        let ghost m3 = buf.pos();
        let d = match self.3.parse(buf) {
            Ok(t) => t,
            Err(e) => {
                let ghost fpos = buf.pos();
                buf.set_index(entry);
                proof {
                    assert(seq7_broke(*self, old(buf).src(), old(buf).pos(), e));
                }
                return Err(e);
            },
        };
        let ghost m4 = buf.pos();
        let e = match self.4.parse(buf) {
            Ok(t) => t,
            Err(e) => {
                let ghost fpos = buf.pos();
                buf.set_index(entry);
                proof {
                    assert(seq7_broke(*self, old(buf).src(), old(buf).pos(), e));
                }
                return Err(e);
            },
        };
        let ghost m5 = buf.pos();
        let f = match self.5.parse(buf) {
            Ok(t) => t,
            Err(e) => {
                let ghost fpos = buf.pos();
                buf.set_index(entry);
                proof {
                    assert(seq7_broke(*self, old(buf).src(), old(buf).pos(), e));
                }
                return Err(e);
            },
        };
        let ghost m6 = buf.pos();
        let g = match self.6.parse(buf) {
            Ok(t) => t,
            Err(e) => {
                let ghost fpos = buf.pos();
                buf.set_index(entry);
                proof {
                    assert(seq7_broke(*self, old(buf).src(), old(buf).pos(), e));
                }
                return Err(e);
            },
        };
        let out = (a, b, c, d, e, f, g);
        proof {
            assert(self.0.parsed(old(buf).src(), old(buf).pos(), m1, Ok(out.0)));
            assert(self.1.parsed(old(buf).src(), m1, m2, Ok(out.1)));
            assert(self.2.parsed(old(buf).src(), m2, m3, Ok(out.2)));
            assert(self.3.parsed(old(buf).src(), m3, m4, Ok(out.3)));
            assert(self.4.parsed(old(buf).src(), m4, m5, Ok(out.4)));
            assert(self.5.parsed(old(buf).src(), m5, m6, Ok(out.5)));
            assert(self.6.parsed(old(buf).src(), m6, buf.pos(), Ok(out.6)));
            assert(seq7_chain(*self, old(buf).src(), old(buf).pos(), buf.pos(), out));
        }
        Ok(out)
    }
}

/// All 8 children succeeded in order, each starting where the previous one
/// stopped: the first at `entry`, the last stopping at `exit`.
pub open spec fn seq8_chain<'a, TA, TB, TC, TD, TE, TF, TG, TH, A, B, C, D, E, F, G, H, ERR>(
    parsers: (A, B, C, D, E, F, G, H),
    src: Seq<char>,
    entry: int,
    exit: int,
    t: (TA, TB, TC, TD, TE, TF, TG, TH),
) -> bool where
    A: Parser<'a, TA, ERR>,
    B: Parser<'a, TB, ERR>,
    C: Parser<'a, TC, ERR>,
    D: Parser<'a, TD, ERR>,
    E: Parser<'a, TE, ERR>,
    F: Parser<'a, TF, ERR>,
    G: Parser<'a, TG, ERR>,
    H: Parser<'a, TH, ERR>,
 {
    exists|m1: int, m2: int, m3: int, m4: int, m5: int, m6: int, m7: int|
        #![trigger parsers.0.parsed(src, entry, m1, Ok(t.0)), parsers.1.parsed(src, m1, m2, Ok(t.1)), parsers.2.parsed(src, m2, m3, Ok(t.2)), parsers.3.parsed(src, m3, m4, Ok(t.3)), parsers.4.parsed(src, m4, m5, Ok(t.4)), parsers.5.parsed(src, m5, m6, Ok(t.5)), parsers.6.parsed(src, m6, m7, Ok(t.6))]
        { parsers.0.parsed(src, entry, m1, Ok(t.0)) && parsers.1.parsed(src, m1, m2, Ok(t.1)) && parsers.2.parsed(src, m2, m3, Ok(t.2)) && parsers.3.parsed(src, m3, m4, Ok(t.3)) && parsers.4.parsed(src, m4, m5, Ok(t.4)) && parsers.5.parsed(src, m5, m6, Ok(t.5)) && parsers.6.parsed(src, m6, m7, Ok(t.6)) && parsers.7.parsed(src, m7, exit, Ok(t.7)) }
}

/// Some child failed with condition `e` after every earlier child succeeded
/// in order from `entry`; the children after it were never attempted.
pub open spec fn seq8_broke<'a, TA, TB, TC, TD, TE, TF, TG, TH, A, B, C, D, E, F, G, H, ERR>(
    parsers: (A, B, C, D, E, F, G, H),
    src: Seq<char>,
    entry: int,
    e: ERR,
) -> bool where
    A: Parser<'a, TA, ERR>,
    B: Parser<'a, TB, ERR>,
    C: Parser<'a, TC, ERR>,
    D: Parser<'a, TD, ERR>,
    E: Parser<'a, TE, ERR>,
    F: Parser<'a, TF, ERR>,
    G: Parser<'a, TG, ERR>,
    H: Parser<'a, TH, ERR>,
 {
    (exists|fpos: int| #[trigger] parsers.0.parsed(src, entry, fpos, Err(e)))
        || (exists|t0: TA, m1: int, fpos: int|
        #![trigger parsers.0.parsed(src, entry, m1, Ok(t0)), parsers.1.parsed(src, m1, fpos, Err(e))]
        { parsers.0.parsed(src, entry, m1, Ok(t0)) && parsers.1.parsed(src, m1, fpos, Err(e)) })
        || (exists|t0: TA, t1: TB, m1: int, m2: int, fpos: int|
        #![trigger parsers.0.parsed(src, entry, m1, Ok(t0)), parsers.1.parsed(src, m1, m2, Ok(t1)), parsers.2.parsed(src, m2, fpos, Err(e))]
        { parsers.0.parsed(src, entry, m1, Ok(t0)) && parsers.1.parsed(src, m1, m2, Ok(t1)) && parsers.2.parsed(src, m2, fpos, Err(e)) })
        || (exists|t0: TA, t1: TB, t2: TC, m1: int, m2: int, m3: int, fpos: int|
        #![trigger parsers.0.parsed(src, entry, m1, Ok(t0)), parsers.1.parsed(src, m1, m2, Ok(t1)), parsers.2.parsed(src, m2, m3, Ok(t2)), parsers.3.parsed(src, m3, fpos, Err(e))]
        { parsers.0.parsed(src, entry, m1, Ok(t0)) && parsers.1.parsed(src, m1, m2, Ok(t1)) && parsers.2.parsed(src, m2, m3, Ok(t2)) && parsers.3.parsed(src, m3, fpos, Err(e)) })
        || (exists|t0: TA, t1: TB, t2: TC, t3: TD, m1: int, m2: int, m3: int, m4: int, fpos: int|
        #![trigger parsers.0.parsed(src, entry, m1, Ok(t0)), parsers.1.parsed(src, m1, m2, Ok(t1)), parsers.2.parsed(src, m2, m3, Ok(t2)), parsers.3.parsed(src, m3, m4, Ok(t3)), parsers.4.parsed(src, m4, fpos, Err(e))]
        { parsers.0.parsed(src, entry, m1, Ok(t0)) && parsers.1.parsed(src, m1, m2, Ok(t1)) && parsers.2.parsed(src, m2, m3, Ok(t2)) && parsers.3.parsed(src, m3, m4, Ok(t3)) && parsers.4.parsed(src, m4, fpos, Err(e)) })
        || (exists|t0: TA, t1: TB, t2: TC, t3: TD, t4: TE, m1: int, m2: int, m3: int, m4: int, m5: int, fpos: int|
        #![trigger parsers.0.parsed(src, entry, m1, Ok(t0)), parsers.1.parsed(src, m1, m2, Ok(t1)), parsers.2.parsed(src, m2, m3, Ok(t2)), parsers.3.parsed(src, m3, m4, Ok(t3)), parsers.4.parsed(src, m4, m5, Ok(t4)), parsers.5.parsed(src, m5, fpos, Err(e))]
        { parsers.0.parsed(src, entry, m1, Ok(t0)) && parsers.1.parsed(src, m1, m2, Ok(t1)) && parsers.2.parsed(src, m2, m3, Ok(t2)) && parsers.3.parsed(src, m3, m4, Ok(t3)) && parsers.4.parsed(src, m4, m5, Ok(t4)) && parsers.5.parsed(src, m5, fpos, Err(e)) })
        || (exists|t0: TA, t1: TB, t2: TC, t3: TD, t4: TE, t5: TF, m1: int, m2: int, m3: int, m4: int, m5: int, m6: int, fpos: int|
        #![trigger parsers.0.parsed(src, entry, m1, Ok(t0)), parsers.1.parsed(src, m1, m2, Ok(t1)), parsers.2.parsed(src, m2, m3, Ok(t2)), parsers.3.parsed(src, m3, m4, Ok(t3)), parsers.4.parsed(src, m4, m5, Ok(t4)), parsers.5.parsed(src, m5, m6, Ok(t5)), parsers.6.parsed(src, m6, fpos, Err(e))]
        { parsers.0.parsed(src, entry, m1, Ok(t0)) && parsers.1.parsed(src, m1, m2, Ok(t1)) && parsers.2.parsed(src, m2, m3, Ok(t2)) && parsers.3.parsed(src, m3, m4, Ok(t3)) && parsers.4.parsed(src, m4, m5, Ok(t4)) && parsers.5.parsed(src, m5, m6, Ok(t5)) && parsers.6.parsed(src, m6, fpos, Err(e)) })
        || (exists|t0: TA, t1: TB, t2: TC, t3: TD, t4: TE, t5: TF, t6: TG, m1: int, m2: int, m3: int, m4: int, m5: int, m6: int, m7: int, fpos: int|
        #![trigger parsers.0.parsed(src, entry, m1, Ok(t0)), parsers.1.parsed(src, m1, m2, Ok(t1)), parsers.2.parsed(src, m2, m3, Ok(t2)), parsers.3.parsed(src, m3, m4, Ok(t3)), parsers.4.parsed(src, m4, m5, Ok(t4)), parsers.5.parsed(src, m5, m6, Ok(t5)), parsers.6.parsed(src, m6, m7, Ok(t6)), parsers.7.parsed(src, m7, fpos, Err(e))]
        { parsers.0.parsed(src, entry, m1, Ok(t0)) && parsers.1.parsed(src, m1, m2, Ok(t1)) && parsers.2.parsed(src, m2, m3, Ok(t2)) && parsers.3.parsed(src, m3, m4, Ok(t3)) && parsers.4.parsed(src, m4, m5, Ok(t4)) && parsers.5.parsed(src, m5, m6, Ok(t5)) && parsers.6.parsed(src, m6, m7, Ok(t6)) && parsers.7.parsed(src, m7, fpos, Err(e)) })
}

impl<'a, TA, TB, TC, TD, TE, TF, TG, TH, A, B, C, D, E, F, G, H, ERR> Parser<'a, (TA, TB, TC, TD, TE, TF, TG, TH), ERR> for (A, B, C, D, E, F, G, H) where
    A: Parser<'a, TA, ERR>,
    B: Parser<'a, TB, ERR>,
    C: Parser<'a, TC, ERR>,
    D: Parser<'a, TD, ERR>,
    E: Parser<'a, TE, ERR>,
    F: Parser<'a, TF, ERR>,
    G: Parser<'a, TG, ERR>,
    H: Parser<'a, TH, ERR>,
 {
    open spec fn backtracks(&self) -> bool {
        true
    }

    open spec fn parsed(&self, src: Seq<char>, entry: int, exit: int, r: Result<
        (TA, TB, TC, TD, TE, TF, TG, TH),
        ERR,
    >) -> bool {
        match r {
            Ok(t) => seq8_chain(*self, src, entry, exit, t),
            Err(e) => exit == entry && seq8_broke(*self, src, entry, e),
        }
    }

    fn parse(&self, buf: &mut Buffer<'a>) -> (r: Result<(TA, TB, TC, TD, TE, TF, TG, TH), ERR>) {
        let entry = buf.index();
        let a = match self.0.parse(buf) {
            Ok(t) => t,
            Err(e) => {
                let ghost fpos = buf.pos();
                buf.set_index(entry);
                proof {
                    assert(seq8_broke(*self, old(buf).src(), old(buf).pos(), e));
                }
                return Err(e);
            },
        };
        let ghost m1 = buf.pos();
        let b = match self.1.parse(buf) {
            Ok(t) => t,
            Err(e) => {
                let ghost fpos = buf.pos();
                buf.set_index(entry);
                proof {
                    assert(seq8_broke(*self, old(buf).src(), old(buf).pos(), e));
                }
                return Err(e);
            },
        };
        let ghost m2 = buf.pos();
        let c = match self.2.parse(buf) {
            Ok(t) => t,
            Err(e) => {
                let ghost fpos = buf.pos();
                buf.set_index(entry);
                proof {
                    assert(seq8_broke(*self, old(buf).src(), old(buf).pos(), e));
                }
                return Err(e);
            },
        };
        let ghost m3 = buf.pos();
        let d = match self.3.parse(buf) {
            Ok(t) => t,
            Err(e) => {
                let ghost fpos = buf.pos();
                buf.set_index(entry);
                proof {
                    assert(seq8_broke(*self, old(buf).src(), old(buf).pos(), e));
                }
                return Err(e);
            },
        };
        let ghost m4 = buf.pos();
        let e = match self.4.parse(buf) {
            Ok(t) => t,
            Err(e) => {
                let ghost fpos = buf.pos();
                buf.set_index(entry);
                proof {
                    assert(seq8_broke(*self, old(buf).src(), old(buf).pos(), e));
                }
                return Err(e);
            },
        };
        let ghost m5 = buf.pos();
        let f = match self.5.parse(buf) {
            Ok(t) => t,
            Err(e) => {
                let ghost fpos = buf.pos();
                buf.set_index(entry);
                proof {
                    assert(seq8_broke(*self, old(buf).src(), old(buf).pos(), e));
                }
                return Err(e);
            },
        };
        let ghost m6 = buf.pos();
        let g = match self.6.parse(buf) {
            Ok(t) => t,
            Err(e) => {
                let ghost fpos = buf.pos();
                buf.set_index(entry);
                proof {
                    assert(seq8_broke(*self, old(buf).src(), old(buf).pos(), e));
                }
                return Err(e);
            },
        };
        let ghost m7 = buf.pos();
        let h = match self.7.parse(buf) {
            Ok(t) => t,
            Err(e) => {
                let ghost fpos = buf.pos();
                buf.set_index(entry);
                proof {
                    assert(seq8_broke(*self, old(buf).src(), old(buf).pos(), e));
                }
                return Err(e);
            },
        };
        let out = (a, b, c, d, e, f, g, h);
        proof {
            assert(self.0.parsed(old(buf).src(), old(buf).pos(), m1, Ok(out.0)));
            assert(self.1.parsed(old(buf).src(), m1, m2, Ok(out.1)));
            assert(self.2.parsed(old(buf).src(), m2, m3, Ok(out.2)));
            assert(self.3.parsed(old(buf).src(), m3, m4, Ok(out.3)));
            assert(self.4.parsed(old(buf).src(), m4, m5, Ok(out.4)));
            assert(self.5.parsed(old(buf).src(), m5, m6, Ok(out.5)));
            assert(self.6.parsed(old(buf).src(), m6, m7, Ok(out.6)));
            assert(self.7.parsed(old(buf).src(), m7, buf.pos(), Ok(out.7)));
            assert(seq8_chain(*self, old(buf).src(), old(buf).pos(), buf.pos(), out));
        }
        Ok(out)
    }
}

/// All 9 children succeeded in order, each starting where the previous one
/// stopped: the first at `entry`, the last stopping at `exit`.
pub open spec fn seq9_chain<'a, TA, TB, TC, TD, TE, TF, TG, TH, TI, A, B, C, D, E, F, G, H, I, ERR>(
    parsers: (A, B, C, D, E, F, G, H, I),
    src: Seq<char>,
    entry: int,
    exit: int,
    t: (TA, TB, TC, TD, TE, TF, TG, TH, TI),
) -> bool where
    A: Parser<'a, TA, ERR>,
    B: Parser<'a, TB, ERR>,
    C: Parser<'a, TC, ERR>,
    D: Parser<'a, TD, ERR>,
    E: Parser<'a, TE, ERR>,
    F: Parser<'a, TF, ERR>,
    G: Parser<'a, TG, ERR>,
    H: Parser<'a, TH, ERR>,
    I: Parser<'a, TI, ERR>,
 {
    exists|m1: int, m2: int, m3: int, m4: int, m5: int, m6: int, m7: int, m8: int|
        #![trigger parsers.0.parsed(src, entry, m1, Ok(t.0)), parsers.1.parsed(src, m1, m2, Ok(t.1)), parsers.2.parsed(src, m2, m3, Ok(t.2)), parsers.3.parsed(src, m3, m4, Ok(t.3)), parsers.4.parsed(src, m4, m5, Ok(t.4)), parsers.5.parsed(src, m5, m6, Ok(t.5)), parsers.6.parsed(src, m6, m7, Ok(t.6)), parsers.7.parsed(src, m7, m8, Ok(t.7))]
        { parsers.0.parsed(src, entry, m1, Ok(t.0)) && parsers.1.parsed(src, m1, m2, Ok(t.1)) && parsers.2.parsed(src, m2, m3, Ok(t.2)) && parsers.3.parsed(src, m3, m4, Ok(t.3)) && parsers.4.parsed(src, m4, m5, Ok(t.4)) && parsers.5.parsed(src, m5, m6, Ok(t.5)) && parsers.6.parsed(src, m6, m7, Ok(t.6)) && parsers.7.parsed(src, m7, m8, Ok(t.7)) && parsers.8.parsed(src, m8, exit, Ok(t.8)) }
}

/// Some child failed with condition `e` after every earlier child succeeded
/// in order from `entry`; the children after it were never attempted.
pub open spec fn seq9_broke<'a, TA, TB, TC, TD, TE, TF, TG, TH, TI, A, B, C, D, E, F, G, H, I, ERR>(
    parsers: (A, B, C, D, E, F, G, H, I),
    src: Seq<char>,
    entry: int,
    e: ERR,
) -> bool where
    A: Parser<'a, TA, ERR>,
    B: Parser<'a, TB, ERR>,
    C: Parser<'a, TC, ERR>,
    D: Parser<'a, TD, ERR>,
    E: Parser<'a, TE, ERR>,
    F: Parser<'a, TF, ERR>,
    G: Parser<'a, TG, ERR>,
    H: Parser<'a, TH, ERR>,
    I: Parser<'a, TI, ERR>,
 {
    (exists|fpos: int| #[trigger] parsers.0.parsed(src, entry, fpos, Err(e)))
        || (exists|t0: TA, m1: int, fpos: int|
        #![trigger parsers.0.parsed(src, entry, m1, Ok(t0)), parsers.1.parsed(src, m1, fpos, Err(e))]
        { parsers.0.parsed(src, entry, m1, Ok(t0)) && parsers.1.parsed(src, m1, fpos, Err(e)) })
        || (exists|t0: TA, t1: TB, m1: int, m2: int, fpos: int|
        #![trigger parsers.0.parsed(src, entry, m1, Ok(t0)), parsers.1.parsed(src, m1, m2, Ok(t1)), parsers.2.parsed(src, m2, fpos, Err(e))]
        { parsers.0.parsed(src, entry, m1, Ok(t0)) && parsers.1.parsed(src, m1, m2, Ok(t1)) && parsers.2.parsed(src, m2, fpos, Err(e)) })
        || (exists|t0: TA, t1: TB, t2: TC, m1: int, m2: int, m3: int, fpos: int|
        #![trigger parsers.0.parsed(src, entry, m1, Ok(t0)), parsers.1.parsed(src, m1, m2, Ok(t1)), parsers.2.parsed(src, m2, m3, Ok(t2)), parsers.3.parsed(src, m3, fpos, Err(e))]
        { parsers.0.parsed(src, entry, m1, Ok(t0)) && parsers.1.parsed(src, m1, m2, Ok(t1)) && parsers.2.parsed(src, m2, m3, Ok(t2)) && parsers.3.parsed(src, m3, fpos, Err(e)) })
        || (exists|t0: TA, t1: TB, t2: TC, t3: TD, m1: int, m2: int, m3: int, m4: int, fpos: int|
        #![trigger parsers.0.parsed(src, entry, m1, Ok(t0)), parsers.1.parsed(src, m1, m2, Ok(t1)), parsers.2.parsed(src, m2, m3, Ok(t2)), parsers.3.parsed(src, m3, m4, Ok(t3)), parsers.4.parsed(src, m4, fpos, Err(e))]
        { parsers.0.parsed(src, entry, m1, Ok(t0)) && parsers.1.parsed(src, m1, m2, Ok(t1)) && parsers.2.parsed(src, m2, m3, Ok(t2)) && parsers.3.parsed(src, m3, m4, Ok(t3)) && parsers.4.parsed(src, m4, fpos, Err(e)) })
        || (exists|t0: TA, t1: TB, t2: TC, t3: TD, t4: TE, m1: int, m2: int, m3: int, m4: int, m5: int, fpos: int|
        #![trigger parsers.0.parsed(src, entry, m1, Ok(t0)), parsers.1.parsed(src, m1, m2, Ok(t1)), parsers.2.parsed(src, m2, m3, Ok(t2)), parsers.3.parsed(src, m3, m4, Ok(t3)), parsers.4.parsed(src, m4, m5, Ok(t4)), parsers.5.parsed(src, m5, fpos, Err(e))]
        { parsers.0.parsed(src, entry, m1, Ok(t0)) && parsers.1.parsed(src, m1, m2, Ok(t1)) && parsers.2.parsed(src, m2, m3, Ok(t2)) && parsers.3.parsed(src, m3, m4, Ok(t3)) && parsers.4.parsed(src, m4, m5, Ok(t4)) && parsers.5.parsed(src, m5, fpos, Err(e)) })
        || (exists|t0: TA, t1: TB, t2: TC, t3: TD, t4: TE, t5: TF, m1: int, m2: int, m3: int, m4: int, m5: int, m6: int, fpos: int|
        #![trigger parsers.0.parsed(src, entry, m1, Ok(t0)), parsers.1.parsed(src, m1, m2, Ok(t1)), parsers.2.parsed(src, m2, m3, Ok(t2)), parsers.3.parsed(src, m3, m4, Ok(t3)), parsers.4.parsed(src, m4, m5, Ok(t4)), parsers.5.parsed(src, m5, m6, Ok(t5)), parsers.6.parsed(src, m6, fpos, Err(e))]
        { parsers.0.parsed(src, entry, m1, Ok(t0)) && parsers.1.parsed(src, m1, m2, Ok(t1)) && parsers.2.parsed(src, m2, m3, Ok(t2)) && parsers.3.parsed(src, m3, m4, Ok(t3)) && parsers.4.parsed(src, m4, m5, Ok(t4)) && parsers.5.parsed(src, m5, m6, Ok(t5)) && parsers.6.parsed(src, m6, fpos, Err(e)) })
        || (exists|t0: TA, t1: TB, t2: TC, t3: TD, t4: TE, t5: TF, t6: TG, m1: int, m2: int, m3: int, m4: int, m5: int, m6: int, m7: int, fpos: int|
        #![trigger parsers.0.parsed(src, entry, m1, Ok(t0)), parsers.1.parsed(src, m1, m2, Ok(t1)), parsers.2.parsed(src, m2, m3, Ok(t2)), parsers.3.parsed(src, m3, m4, Ok(t3)), parsers.4.parsed(src, m4, m5, Ok(t4)), parsers.5.parsed(src, m5, m6, Ok(t5)), parsers.6.parsed(src, m6, m7, Ok(t6)), parsers.7.parsed(src, m7, fpos, Err(e))]
        { parsers.0.parsed(src, entry, m1, Ok(t0)) && parsers.1.parsed(src, m1, m2, Ok(t1)) && parsers.2.parsed(src, m2, m3, Ok(t2)) && parsers.3.parsed(src, m3, m4, Ok(t3)) && parsers.4.parsed(src, m4, m5, Ok(t4)) && parsers.5.parsed(src, m5, m6, Ok(t5)) && parsers.6.parsed(src, m6, m7, Ok(t6)) && parsers.7.parsed(src, m7, fpos, Err(e)) })
        || (exists|t0: TA, t1: TB, t2: TC, t3: TD, t4: TE, t5: TF, t6: TG, t7: TH, m1: int, m2: int, m3: int, m4: int, m5: int, m6: int, m7: int, m8: int, fpos: int|
        #![trigger parsers.0.parsed(src, entry, m1, Ok(t0)), parsers.1.parsed(src, m1, m2, Ok(t1)), parsers.2.parsed(src, m2, m3, Ok(t2)), parsers.3.parsed(src, m3, m4, Ok(t3)), parsers.4.parsed(src, m4, m5, Ok(t4)), parsers.5.parsed(src, m5, m6, Ok(t5)), parsers.6.parsed(src, m6, m7, Ok(t6)), parsers.7.parsed(src, m7, m8, Ok(t7)), parsers.8.parsed(src, m8, fpos, Err(e))]
        { parsers.0.parsed(src, entry, m1, Ok(t0)) && parsers.1.parsed(src, m1, m2, Ok(t1)) && parsers.2.parsed(src, m2, m3, Ok(t2)) && parsers.3.parsed(src, m3, m4, Ok(t3)) && parsers.4.parsed(src, m4, m5, Ok(t4)) && parsers.5.parsed(src, m5, m6, Ok(t5)) && parsers.6.parsed(src, m6, m7, Ok(t6)) && parsers.7.parsed(src, m7, m8, Ok(t7)) && parsers.8.parsed(src, m8, fpos, Err(e)) })
}

impl<'a, TA, TB, TC, TD, TE, TF, TG, TH, TI, A, B, C, D, E, F, G, H, I, ERR> Parser<'a, (TA, TB, TC, TD, TE, TF, TG, TH, TI), ERR> for (A, B, C, D, E, F, G, H, I) where
    A: Parser<'a, TA, ERR>,
    B: Parser<'a, TB, ERR>,
    C: Parser<'a, TC, ERR>,
    D: Parser<'a, TD, ERR>,
    E: Parser<'a, TE, ERR>,
    F: Parser<'a, TF, ERR>,
    G: Parser<'a, TG, ERR>,
    H: Parser<'a, TH, ERR>,
    I: Parser<'a, TI, ERR>,
 {
    open spec fn backtracks(&self) -> bool {
        true
    }

    open spec fn parsed(&self, src: Seq<char>, entry: int, exit: int, r: Result<
        (TA, TB, TC, TD, TE, TF, TG, TH, TI),
        ERR,
    >) -> bool {
        match r {
            Ok(t) => seq9_chain(*self, src, entry, exit, t),
            Err(e) => exit == entry && seq9_broke(*self, src, entry, e),
        }
    }

    fn parse(&self, buf: &mut Buffer<'a>) -> (r: Result<(TA, TB, TC, TD, TE, TF, TG, TH, TI), ERR>) {
        let entry = buf.index();
        let a = match self.0.parse(buf) {
            Ok(t) => t,
            Err(e) => {
                let ghost fpos = buf.pos();
                buf.set_index(entry);
                proof {
                    assert(seq9_broke(*self, old(buf).src(), old(buf).pos(), e));
                }
                return Err(e);
            },
        };
        let ghost m1 = buf.pos();
        let b = match self.1.parse(buf) {
            Ok(t) => t,
            Err(e) => {
                let ghost fpos = buf.pos();
                buf.set_index(entry);
                proof {
                    assert(seq9_broke(*self, old(buf).src(), old(buf).pos(), e));
                }
                return Err(e);
            },
        };
        let ghost m2 = buf.pos();
        let c = match self.2.parse(buf) {
            Ok(t) => t,
            Err(e) => {
                let ghost fpos = buf.pos();
                buf.set_index(entry);
                proof {
                    assert(seq9_broke(*self, old(buf).src(), old(buf).pos(), e));
                }
                return Err(e);
            },
        };
        let ghost m3 = buf.pos();
        let d = match self.3.parse(buf) {
            Ok(t) => t,
            Err(e) => {
                let ghost fpos = buf.pos();
                buf.set_index(entry);
                proof {
                    assert(seq9_broke(*self, old(buf).src(), old(buf).pos(), e));
                }
                return Err(e);
            },
        };
        let ghost m4 = buf.pos();
        let e = match self.4.parse(buf) {
            Ok(t) => t,
            Err(e) => {
                let ghost fpos = buf.pos();
                buf.set_index(entry);
                proof {
                    assert(seq9_broke(*self, old(buf).src(), old(buf).pos(), e));
                }
                return Err(e);
            },
        };
        let ghost m5 = buf.pos();
        let f = match self.5.parse(buf) {
            Ok(t) => t,
            Err(e) => {
                let ghost fpos = buf.pos();
                buf.set_index(entry);
                proof {
                    assert(seq9_broke(*self, old(buf).src(), old(buf).pos(), e));
                }
                return Err(e);
            },
        };
        let ghost m6 = buf.pos();
        let g = match self.6.parse(buf) {
            Ok(t) => t,
            Err(e) => {
                let ghost fpos = buf.pos();
                buf.set_index(entry);
                proof {
                    assert(seq9_broke(*self, old(buf).src(), old(buf).pos(), e));
                }
                return Err(e);
            },
        };
        let ghost m7 = buf.pos();
        let h = match self.7.parse(buf) {
            Ok(t) => t,
            Err(e) => {
                let ghost fpos = buf.pos();
                buf.set_index(entry);
                proof {
                    assert(seq9_broke(*self, old(buf).src(), old(buf).pos(), e));
                }
                return Err(e);
            },
        };
        let ghost m8 = buf.pos();
        let i = match self.8.parse(buf) {
            Ok(t) => t,
            Err(e) => {
                let ghost fpos = buf.pos();
                buf.set_index(entry);
                proof {
                    assert(seq9_broke(*self, old(buf).src(), old(buf).pos(), e));
                }
                return Err(e);
            },
        };
        let out = (a, b, c, d, e, f, g, h, i);
        proof {
            assert(self.0.parsed(old(buf).src(), old(buf).pos(), m1, Ok(out.0)));
            assert(self.1.parsed(old(buf).src(), m1, m2, Ok(out.1)));
            assert(self.2.parsed(old(buf).src(), m2, m3, Ok(out.2)));
            assert(self.3.parsed(old(buf).src(), m3, m4, Ok(out.3)));
            assert(self.4.parsed(old(buf).src(), m4, m5, Ok(out.4)));
            assert(self.5.parsed(old(buf).src(), m5, m6, Ok(out.5)));
            assert(self.6.parsed(old(buf).src(), m6, m7, Ok(out.6)));
            assert(self.7.parsed(old(buf).src(), m7, m8, Ok(out.7)));
            assert(self.8.parsed(old(buf).src(), m8, buf.pos(), Ok(out.8)));
            assert(seq9_chain(*self, old(buf).src(), old(buf).pos(), buf.pos(), out));
        }
        Ok(out)
    }
}

/// All 10 children succeeded in order, each starting where the previous one
/// stopped: the first at `entry`, the last stopping at `exit`.
pub open spec fn seq10_chain<'a, TA, TB, TC, TD, TE, TF, TG, TH, TI, TJ, A, B, C, D, E, F, G, H, I, J, ERR>(
    parsers: (A, B, C, D, E, F, G, H, I, J),
    src: Seq<char>,
    entry: int,
    exit: int,
    t: (TA, TB, TC, TD, TE, TF, TG, TH, TI, TJ),
) -> bool where
    A: Parser<'a, TA, ERR>,
    B: Parser<'a, TB, ERR>,
    C: Parser<'a, TC, ERR>,
    D: Parser<'a, TD, ERR>,
    E: Parser<'a, TE, ERR>,
    F: Parser<'a, TF, ERR>,
    G: Parser<'a, TG, ERR>,
    H: Parser<'a, TH, ERR>,
    I: Parser<'a, TI, ERR>,
    J: Parser<'a, TJ, ERR>,
 {
    exists|m1: int, m2: int, m3: int, m4: int, m5: int, m6: int, m7: int, m8: int, m9: int|
        #![trigger parsers.0.parsed(src, entry, m1, Ok(t.0)), parsers.1.parsed(src, m1, m2, Ok(t.1)), parsers.2.parsed(src, m2, m3, Ok(t.2)), parsers.3.parsed(src, m3, m4, Ok(t.3)), parsers.4.parsed(src, m4, m5, Ok(t.4)), parsers.5.parsed(src, m5, m6, Ok(t.5)), parsers.6.parsed(src, m6, m7, Ok(t.6)), parsers.7.parsed(src, m7, m8, Ok(t.7)), parsers.8.parsed(src, m8, m9, Ok(t.8))]
        { parsers.0.parsed(src, entry, m1, Ok(t.0)) && parsers.1.parsed(src, m1, m2, Ok(t.1)) && parsers.2.parsed(src, m2, m3, Ok(t.2)) && parsers.3.parsed(src, m3, m4, Ok(t.3)) && parsers.4.parsed(src, m4, m5, Ok(t.4)) && parsers.5.parsed(src, m5, m6, Ok(t.5)) && parsers.6.parsed(src, m6, m7, Ok(t.6)) && parsers.7.parsed(src, m7, m8, Ok(t.7)) && parsers.8.parsed(src, m8, m9, Ok(t.8)) && parsers.9.parsed(src, m9, exit, Ok(t.9)) }
}

/// Some child failed with condition `e` after every earlier child succeeded
/// in order from `entry`; the children after it were never attempted.
pub open spec fn seq10_broke<'a, TA, TB, TC, TD, TE, TF, TG, TH, TI, TJ, A, B, C, D, E, F, G, H, I, J, ERR>(
    parsers: (A, B, C, D, E, F, G, H, I, J),
    src: Seq<char>,
    entry: int,
    e: ERR,
) -> bool where
    A: Parser<'a, TA, ERR>,
    B: Parser<'a, TB, ERR>,
    C: Parser<'a, TC, ERR>,
    D: Parser<'a, TD, ERR>,
    E: Parser<'a, TE, ERR>,
    F: Parser<'a, TF, ERR>,
    G: Parser<'a, TG, ERR>,
    H: Parser<'a, TH, ERR>,
    I: Parser<'a, TI, ERR>,
    J: Parser<'a, TJ, ERR>,
 {
    (exists|fpos: int| #[trigger] parsers.0.parsed(src, entry, fpos, Err(e)))
        || (exists|t0: TA, m1: int, fpos: int|
        #![trigger parsers.0.parsed(src, entry, m1, Ok(t0)), parsers.1.parsed(src, m1, fpos, Err(e))]
        { parsers.0.parsed(src, entry, m1, Ok(t0)) && parsers.1.parsed(src, m1, fpos, Err(e)) })
        || (exists|t0: TA, t1: TB, m1: int, m2: int, fpos: int|
        #![trigger parsers.0.parsed(src, entry, m1, Ok(t0)), parsers.1.parsed(src, m1, m2, Ok(t1)), parsers.2.parsed(src, m2, fpos, Err(e))]
        { parsers.0.parsed(src, entry, m1, Ok(t0)) && parsers.1.parsed(src, m1, m2, Ok(t1)) && parsers.2.parsed(src, m2, fpos, Err(e)) })
        || (exists|t0: TA, t1: TB, t2: TC, m1: int, m2: int, m3: int, fpos: int|
        #![trigger parsers.0.parsed(src, entry, m1, Ok(t0)), parsers.1.parsed(src, m1, m2, Ok(t1)), parsers.2.parsed(src, m2, m3, Ok(t2)), parsers.3.parsed(src, m3, fpos, Err(e))]
        { parsers.0.parsed(src, entry, m1, Ok(t0)) && parsers.1.parsed(src, m1, m2, Ok(t1)) && parsers.2.parsed(src, m2, m3, Ok(t2)) && parsers.3.parsed(src, m3, fpos, Err(e)) })
        || (exists|t0: TA, t1: TB, t2: TC, t3: TD, m1: int, m2: int, m3: int, m4: int, fpos: int|
        #![trigger parsers.0.parsed(src, entry, m1, Ok(t0)), parsers.1.parsed(src, m1, m2, Ok(t1)), parsers.2.parsed(src, m2, m3, Ok(t2)), parsers.3.parsed(src, m3, m4, Ok(t3)), parsers.4.parsed(src, m4, fpos, Err(e))]
        { parsers.0.parsed(src, entry, m1, Ok(t0)) && parsers.1.parsed(src, m1, m2, Ok(t1)) && parsers.2.parsed(src, m2, m3, Ok(t2)) && parsers.3.parsed(src, m3, m4, Ok(t3)) && parsers.4.parsed(src, m4, fpos, Err(e)) })
        || (exists|t0: TA, t1: TB, t2: TC, t3: TD, t4: TE, m1: int, m2: int, m3: int, m4: int, m5: int, fpos: int|
        #![trigger parsers.0.parsed(src, entry, m1, Ok(t0)), parsers.1.parsed(src, m1, m2, Ok(t1)), parsers.2.parsed(src, m2, m3, Ok(t2)), parsers.3.parsed(src, m3, m4, Ok(t3)), parsers.4.parsed(src, m4, m5, Ok(t4)), parsers.5.parsed(src, m5, fpos, Err(e))]
        { parsers.0.parsed(src, entry, m1, Ok(t0)) && parsers.1.parsed(src, m1, m2, Ok(t1)) && parsers.2.parsed(src, m2, m3, Ok(t2)) && parsers.3.parsed(src, m3, m4, Ok(t3)) && parsers.4.parsed(src, m4, m5, Ok(t4)) && parsers.5.parsed(src, m5, fpos, Err(e)) })
        || (exists|t0: TA, t1: TB, t2: TC, t3: TD, t4: TE, t5: TF, m1: int, m2: int, m3: int, m4: int, m5: int, m6: int, fpos: int|
        #![trigger parsers.0.parsed(src, entry, m1, Ok(t0)), parsers.1.parsed(src, m1, m2, Ok(t1)), parsers.2.parsed(src, m2, m3, Ok(t2)), parsers.3.parsed(src, m3, m4, Ok(t3)), parsers.4.parsed(src, m4, m5, Ok(t4)), parsers.5.parsed(src, m5, m6, Ok(t5)), parsers.6.parsed(src, m6, fpos, Err(e))]
        { parsers.0.parsed(src, entry, m1, Ok(t0)) && parsers.1.parsed(src, m1, m2, Ok(t1)) && parsers.2.parsed(src, m2, m3, Ok(t2)) && parsers.3.parsed(src, m3, m4, Ok(t3)) && parsers.4.parsed(src, m4, m5, Ok(t4)) && parsers.5.parsed(src, m5, m6, Ok(t5)) && parsers.6.parsed(src, m6, fpos, Err(e)) })
        || (exists|t0: TA, t1: TB, t2: TC, t3: TD, t4: TE, t5: TF, t6: TG, m1: int, m2: int, m3: int, m4: int, m5: int, m6: int, m7: int, fpos: int|
        #![trigger parsers.0.parsed(src, entry, m1, Ok(t0)), parsers.1.parsed(src, m1, m2, Ok(t1)), parsers.2.parsed(src, m2, m3, Ok(t2)), parsers.3.parsed(src, m3, m4, Ok(t3)), parsers.4.parsed(src, m4, m5, Ok(t4)), parsers.5.parsed(src, m5, m6, Ok(t5)), parsers.6.parsed(src, m6, m7, Ok(t6)), parsers.7.parsed(src, m7, fpos, Err(e))]
        { parsers.0.parsed(src, entry, m1, Ok(t0)) && parsers.1.parsed(src, m1, m2, Ok(t1)) && parsers.2.parsed(src, m2, m3, Ok(t2)) && parsers.3.parsed(src, m3, m4, Ok(t3)) && parsers.4.parsed(src, m4, m5, Ok(t4)) && parsers.5.parsed(src, m5, m6, Ok(t5)) && parsers.6.parsed(src, m6, m7, Ok(t6)) && parsers.7.parsed(src, m7, fpos, Err(e)) })
        || (exists|t0: TA, t1: TB, t2: TC, t3: TD, t4: TE, t5: TF, t6: TG, t7: TH, m1: int, m2: int, m3: int, m4: int, m5: int, m6: int, m7: int, m8: int, fpos: int|
        #![trigger parsers.0.parsed(src, entry, m1, Ok(t0)), parsers.1.parsed(src, m1, m2, Ok(t1)), parsers.2.parsed(src, m2, m3, Ok(t2)), parsers.3.parsed(src, m3, m4, Ok(t3)), parsers.4.parsed(src, m4, m5, Ok(t4)), parsers.5.parsed(src, m5, m6, Ok(t5)), parsers.6.parsed(src, m6, m7, Ok(t6)), parsers.7.parsed(src, m7, m8, Ok(t7)), parsers.8.parsed(src, m8, fpos, Err(e))]
        { parsers.0.parsed(src, entry, m1, Ok(t0)) && parsers.1.parsed(src, m1, m2, Ok(t1)) && parsers.2.parsed(src, m2, m3, Ok(t2)) && parsers.3.parsed(src, m3, m4, Ok(t3)) && parsers.4.parsed(src, m4, m5, Ok(t4)) && parsers.5.parsed(src, m5, m6, Ok(t5)) && parsers.6.parsed(src, m6, m7, Ok(t6)) && parsers.7.parsed(src, m7, m8, Ok(t7)) && parsers.8.parsed(src, m8, fpos, Err(e)) })
        || (exists|t0: TA, t1: TB, t2: TC, t3: TD, t4: TE, t5: TF, t6: TG, t7: TH, t8: TI, m1: int, m2: int, m3: int, m4: int, m5: int, m6: int, m7: int, m8: int, m9: int, fpos: int|
        #![trigger parsers.0.parsed(src, entry, m1, Ok(t0)), parsers.1.parsed(src, m1, m2, Ok(t1)), parsers.2.parsed(src, m2, m3, Ok(t2)), parsers.3.parsed(src, m3, m4, Ok(t3)), parsers.4.parsed(src, m4, m5, Ok(t4)), parsers.5.parsed(src, m5, m6, Ok(t5)), parsers.6.parsed(src, m6, m7, Ok(t6)), parsers.7.parsed(src, m7, m8, Ok(t7)), parsers.8.parsed(src, m8, m9, Ok(t8)), parsers.9.parsed(src, m9, fpos, Err(e))]
        { parsers.0.parsed(src, entry, m1, Ok(t0)) && parsers.1.parsed(src, m1, m2, Ok(t1)) && parsers.2.parsed(src, m2, m3, Ok(t2)) && parsers.3.parsed(src, m3, m4, Ok(t3)) && parsers.4.parsed(src, m4, m5, Ok(t4)) && parsers.5.parsed(src, m5, m6, Ok(t5)) && parsers.6.parsed(src, m6, m7, Ok(t6)) && parsers.7.parsed(src, m7, m8, Ok(t7)) && parsers.8.parsed(src, m8, m9, Ok(t8)) && parsers.9.parsed(src, m9, fpos, Err(e)) })
}

impl<'a, TA, TB, TC, TD, TE, TF, TG, TH, TI, TJ, A, B, C, D, E, F, G, H, I, J, ERR> Parser<'a, (TA, TB, TC, TD, TE, TF, TG, TH, TI, TJ), ERR> for (A, B, C, D, E, F, G, H, I, J) where
    A: Parser<'a, TA, ERR>,
    B: Parser<'a, TB, ERR>,
    C: Parser<'a, TC, ERR>,
    D: Parser<'a, TD, ERR>,
    E: Parser<'a, TE, ERR>,
    F: Parser<'a, TF, ERR>,
    G: Parser<'a, TG, ERR>,
    H: Parser<'a, TH, ERR>,
    I: Parser<'a, TI, ERR>,
    J: Parser<'a, TJ, ERR>,
 {
    open spec fn backtracks(&self) -> bool {
        true
    }

    open spec fn parsed(&self, src: Seq<char>, entry: int, exit: int, r: Result<
        (TA, TB, TC, TD, TE, TF, TG, TH, TI, TJ),
        ERR,
    >) -> bool {
        match r {
            Ok(t) => seq10_chain(*self, src, entry, exit, t),
            Err(e) => exit == entry && seq10_broke(*self, src, entry, e),
        }
    }

    fn parse(&self, buf: &mut Buffer<'a>) -> (r: Result<(TA, TB, TC, TD, TE, TF, TG, TH, TI, TJ), ERR>) {
        let entry = buf.index();
        let a = match self.0.parse(buf) {
            Ok(t) => t,
            Err(e) => {
                let ghost fpos = buf.pos();
                buf.set_index(entry);
                proof {
                    assert(seq10_broke(*self, old(buf).src(), old(buf).pos(), e));
                }
                return Err(e);
            },
        };
        let ghost m1 = buf.pos();
        let b = match self.1.parse(buf) {
            Ok(t) => t,
            Err(e) => {
                let ghost fpos = buf.pos();
                buf.set_index(entry);
                proof {
                    assert(seq10_broke(*self, old(buf).src(), old(buf).pos(), e));
                }
                return Err(e);
            },
        };
        let ghost m2 = buf.pos();
        let c = match self.2.parse(buf) {
            Ok(t) => t,
            Err(e) => {
                let ghost fpos = buf.pos();
                buf.set_index(entry);
                proof {
                    assert(seq10_broke(*self, old(buf).src(), old(buf).pos(), e));
                }
                return Err(e);
            },
        };
        let ghost m3 = buf.pos();
        let d = match self.3.parse(buf) {
            Ok(t) => t,
            Err(e) => {
                let ghost fpos = buf.pos();
                buf.set_index(entry);
                proof {
                    assert(seq10_broke(*self, old(buf).src(), old(buf).pos(), e));
                }
                return Err(e);
            },
        };
        let ghost m4 = buf.pos();
        let e = match self.4.parse(buf) {
            Ok(t) => t,
            Err(e) => {
                let ghost fpos = buf.pos();
                buf.set_index(entry);
                proof {
                    assert(seq10_broke(*self, old(buf).src(), old(buf).pos(), e));
                }
                return Err(e);
            },
        };
        let ghost m5 = buf.pos();
        let f = match self.5.parse(buf) {
            Ok(t) => t,
            Err(e) => {
                let ghost fpos = buf.pos();
                buf.set_index(entry);
                proof {
                    assert(seq10_broke(*self, old(buf).src(), old(buf).pos(), e));
                }
                return Err(e);
            },
        };
        let ghost m6 = buf.pos();
        let g = match self.6.parse(buf) {
            Ok(t) => t,
            Err(e) => {
                let ghost fpos = buf.pos();
                buf.set_index(entry);
                proof {
                    assert(seq10_broke(*self, old(buf).src(), old(buf).pos(), e));
                }
                return Err(e);
            },
        };
        let ghost m7 = buf.pos();
        let h = match self.7.parse(buf) {
            Ok(t) => t,
            Err(e) => {
                let ghost fpos = buf.pos();
                buf.set_index(entry);
                proof {
                    assert(seq10_broke(*self, old(buf).src(), old(buf).pos(), e));
                }
                return Err(e);
            },
        };
        let ghost m8 = buf.pos();
        let i = match self.8.parse(buf) {
            Ok(t) => t,
            Err(e) => {
                let ghost fpos = buf.pos();
                buf.set_index(entry);
                proof {
                    assert(seq10_broke(*self, old(buf).src(), old(buf).pos(), e));
                }
                return Err(e);
            },
        };
        let ghost m9 = buf.pos();
        let j = match self.9.parse(buf) {
            Ok(t) => t,
            Err(e) => {
                let ghost fpos = buf.pos();
                buf.set_index(entry);
                proof {
                    assert(seq10_broke(*self, old(buf).src(), old(buf).pos(), e));
                }
                return Err(e);
            },
        };
        let out = (a, b, c, d, e, f, g, h, i, j);
        proof {
            assert(self.0.parsed(old(buf).src(), old(buf).pos(), m1, Ok(out.0)));
            assert(self.1.parsed(old(buf).src(), m1, m2, Ok(out.1)));
            assert(self.2.parsed(old(buf).src(), m2, m3, Ok(out.2)));
            assert(self.3.parsed(old(buf).src(), m3, m4, Ok(out.3)));
            assert(self.4.parsed(old(buf).src(), m4, m5, Ok(out.4)));
            assert(self.5.parsed(old(buf).src(), m5, m6, Ok(out.5)));
            assert(self.6.parsed(old(buf).src(), m6, m7, Ok(out.6)));
            assert(self.7.parsed(old(buf).src(), m7, m8, Ok(out.7)));
            assert(self.8.parsed(old(buf).src(), m8, m9, Ok(out.8)));
            assert(self.9.parsed(old(buf).src(), m9, buf.pos(), Ok(out.9)));
            assert(seq10_chain(*self, old(buf).src(), old(buf).pos(), buf.pos(), out));
        }
        Ok(out)
    }
}

} // verus!
