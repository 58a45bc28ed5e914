//! Result transformation.

use vstd::prelude::*;
use core::marker::PhantomData;
use crate::buffer::Buffer;
use crate::parser::Parser;

verus! {

/// Wraps one child and a pure transform from the child's raw result to a new
/// result, applied exactly once per attempt.
///
/// When the child fails, the cursor is first restored to the position before
/// the child was invoked — a defense against children that do not restore on
/// failure themselves — and the transform then receives the failure. The
/// transform may reshape the output, convert the error type, or even turn a
/// success into a failure or vice versa; only transforms that keep success
/// mapped to success preserve the backtracking invariant up the tree.
#[verifier::reject_recursive_types(T)]
#[verifier::reject_recursive_types(E)]
#[verifier::reject_recursive_types(T2)]
#[verifier::reject_recursive_types(E2)]
pub struct Mapped<'a, T, E, T2, E2, P, F> where
    P: Parser<'a, T2, E2>,
    F: Fn(Result<T2, E2>) -> Result<T, E>,
 {
    prev: P,
    closure: F,
    _phantom: PhantomData<&'a (T, E, T2, E2)>,
}

impl<'a, T, E, T2, E2, P, F> Mapped<'a, T, E, T2, E2, P, F> where
    P: Parser<'a, T2, E2>,
    F: Fn(Result<T2, E2>) -> Result<T, E>,
 {
    /// The transform accepts every possible child result.
    #[verifier::type_invariant]
    spec fn transform_total(self) -> bool {
        forall|x: Result<T2, E2>| call_requires(self.closure, (x,))
    }

    /// The wrapped child capability.
    pub closed spec fn prev(&self) -> P {
        self.prev
    }

    /// The transform function.
    pub closed spec fn transform(&self) -> F {
        self.closure
    }

    /// The transform never turns a child success into a failure; under this
    /// condition the combinator backtracks like every other one.
    pub open spec fn success_preserving(&self) -> bool {
        forall|t: T2, r: Result<T, E>| call_ensures(self.transform(), (Ok(t),), r) ==> r is Ok
    }

    /// Builds a transformed capability from a child and a transform.
    pub fn new(prev: P, closure: F) -> (r: Self)
        requires
            forall|x: Result<T2, E2>| call_requires(closure, (x,)),
        ensures
            r.prev() == prev,
            r.transform() == closure,
    {
        Mapped { prev, closure, _phantom: PhantomData }
    }
}

impl<'a, T, E, T2, E2, P, F> Parser<'a, T, E> for Mapped<'a, T, E, T2, E2, P, F> where
    P: Parser<'a, T2, E2>,
    F: Fn(Result<T2, E2>) -> Result<T, E>,
 {
    open spec fn backtracks(&self) -> bool {
        self.prev().backtracks() && self.success_preserving()
    }

    open spec fn parsed(&self, src: Seq<char>, entry: int, exit: int, r: Result<T, E>) -> bool {
        exists|cr: Result<T2, E2>, m: int|
            {
                &&& #[trigger] self.prev().parsed(src, entry, m, cr)
                &&& call_ensures(self.transform(), (cr,), r)
                &&& (cr is Ok ==> exit == m)
                &&& (cr is Err ==> exit == entry)
            }
    }

    fn parse(&self, buf: &mut Buffer<'a>) -> (r: Result<T, E>) {
        let entry = buf.index();
        let out = self.prev.parse(buf);
        let ghost mchild = buf.pos();
        if out.is_err() {
            buf.set_index(entry);
        }
        proof {
            use_type_invariant(self);
        }
        let ghost mid = out;
        let r = (self.closure)(out);
        proof {
            assert(self.prev().parsed(old(buf).src(), old(buf).pos(), mchild, mid));
            assert(call_ensures(self.transform(), (mid,), r));
            if self.backtracks() && r is Err {
                match mid {
                    Ok(t) => {
                        assert(call_ensures(self.transform(), (Ok(t),), r));
                    },
                    Err(_) => {},
                }
                assert(mid is Err);
            }
        }
        r
    }
}

} // verus!
