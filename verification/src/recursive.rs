//! Self-referential capabilities: a grammar rule that refers to itself, or
//! to a rule that has not finished being constructed.
//!
//! One node per recursive group genuinely owns the wrapped capability; every
//! other handle to the same group is a non-owning back-reference, resolved to
//! a temporary owning handle only while actively parsing. Keeping all but one
//! handle non-owning prevents the cyclic grammar graph from becoming
//! unreclaimable.

use vstd::prelude::*;
use std::rc::Rc;
use std::rc::Weak;
use crate::buffer::Buffer;
use crate::parser::Parser;

verus! {

/// A non-owning handle to a capability allocation. The handle is opaque;
/// `std::rc::Weak` itself cannot be declared to the verifier because of its
/// allocator parameter, so it is held in a hidden field.
#[verifier::external_body]
#[verifier::reject_recursive_types(P)]
pub struct WeakHandle<P> {
    w: Weak<P>,
}

/// Relies on `Rc::clone`: the returned handle refers to the same value.
#[verifier::external_body]
fn clone_rc<T>(rc: &Rc<T>) -> (r: Rc<T>)
    ensures
        r == *rc,
{
    Rc::clone(rc)
}

/// Relies on `Weak::clone`: duplicates a non-owning handle. Nothing is
/// assumed of the result; the handle is opaque.
#[verifier::external_body]
fn clone_weak<T>(w: &WeakHandle<T>) -> (r: WeakHandle<T>) {
    WeakHandle { w: w.w.clone() }
}

/// Relies on `Weak::upgrade`: promotes a non-owning handle to an owning one.
/// Panics when the owner has been destroyed — a dangling recursive reference
/// is a programming error in the calling grammar, fatal by design, not a
/// parse failure. Nothing is assumed of the returned value.
#[verifier::external_body]
fn upgrade_weak<T>(w: &WeakHandle<T>) -> (r: Rc<T>) {
    w.w.upgrade().expect("Could not upgrade a non-owning parser handle; its owner was destroyed")
}

#[verifier::reject_recursive_types(P)]
enum RecursiveInner<P> {
    Owned(Rc<P>),
    Backref(WeakHandle<P>),
}

impl<P> RecursiveInner<P> {
    /// The capability this node owns: nothing for a back-reference.
    pub closed spec fn owned_part(&self) -> Option<P> {
        match *self {
            RecursiveInner::Owned(rc) => Some(*rc),
            RecursiveInner::Backref(_) => None,
        }
    }

    fn get_rc(&self) -> (r: Rc<P>)
        ensures
            self.owned_part() matches Some(p) ==> *r == p,
    {
        match self {
            RecursiveInner::Owned(rc) => clone_rc(rc),
            RecursiveInner::Backref(w) => upgrade_weak(w),
        }
    }
}

impl<P> Clone for RecursiveInner<P> {
    fn clone(&self) -> (r: Self)
        ensures
            r.owned_part() == self.owned_part(),
    {
        match self {
            RecursiveInner::Owned(rc) => RecursiveInner::Owned(clone_rc(rc)),
            RecursiveInner::Backref(w) => RecursiveInner::Backref(clone_weak(w)),
        }
    }
}

/// A capability that resolves to a capability under construction, enabling
/// self-referential and mutually recursive grammar rules.
///
/// Recursion depth is bounded only by the grammar's own structure and the
/// input length and runs on the host call stack; a grammar that recurses
/// without consuming input is a caller error the engine cannot detect.
#[verifier::reject_recursive_types(P)]
pub struct Recursive<P> {
    inner: RecursiveInner<P>,
}

impl<P> Clone for Recursive<P> {
    fn clone(&self) -> (r: Self)
        ensures
            r.owned() == self.owned(),
    {
        Recursive { inner: self.inner.clone() }
    }
}

/// The builder closure was handed a non-owning back-reference and produced
/// the capability `p`.
pub open spec fn built_on_backref<P, F: FnOnce(Recursive<P>) -> P>(
    closure: F,
    rec: Recursive<P>,
    p: P,
) -> bool {
    rec.owned() is None && call_ensures(closure, (rec,), p)
}

/// Relies on `Rc::new_cyclic`: hands the builder a non-owning handle to the
/// allocation under construction and stores the builder's result in it, so
/// the returned node holds a value the builder produced on a handle that
/// owns nothing.
#[verifier::external_body]
fn rc_new_cyclic_rec<P, F: FnOnce(Recursive<P>) -> P>(closure: F) -> (r: Rc<P>)
    requires
        forall|rec: Recursive<P>| call_requires(closure, (rec,)),
    ensures
        exists|rec: Recursive<P>| built_on_backref(closure, rec, *r),
{
    Rc::new_cyclic(
        |w| closure(Recursive { inner: RecursiveInner::Backref(WeakHandle { w: w.clone() }) }),
    )
}

impl<P> Recursive<P> {
    /// The capability this node owns: nothing when the node is a non-owning
    /// back-reference.
    pub closed spec fn owned(&self) -> Option<P> {
        self.inner.owned_part()
    }

    /// Builds the owning node of a recursive group. The builder closure
    /// receives a non-owning handle to the node being built and returns the
    /// capability the node will own, which may embed that handle anywhere
    /// within it.
    pub fn new<F: FnOnce(Self) -> P>(closure: F) -> (r: Self)
        requires
            forall|rec: Self| call_requires(closure, (rec,)),
        ensures
            r.owned() is Some,
            exists|rec: Self| built_on_backref(closure, rec, r.owned()->Some_0),
    {
        let rc = rc_new_cyclic_rec(closure);
        let r = Recursive { inner: RecursiveInner::Owned(rc) };
        proof {
            assert(r.owned() == Some(*rc));
            let rec0 = choose|rec: Self| built_on_backref(closure, rec, *rc);
            assert(built_on_backref(closure, rec0, *rc));
            assert(built_on_backref(closure, rec0, r.owned()->Some_0));
        }
        r
    }
}

impl<'a, T, E, P: Parser<'a, T, E>> Parser<'a, T, E> for Recursive<P> {
    open spec fn backtracks(&self) -> bool {
        true
    }

    /// For the owning node — the only node a caller builds directly —
    /// parsing delegates to the owned capability: the result conforms to
    /// that capability's own relation, and on success the cursor is where it
    /// stopped. Through a non-owning back-reference the resolved capability
    /// is opaque to the verifier, so only the backtracking guarantee is
    /// stated there; delegation through back-references is covered by the
    /// runtime tests. On failure this node restores the cursor itself, one
    /// step beyond pure delegation, to honour the backtracking invariant.
    open spec fn parsed(&self, src: Seq<char>, entry: int, exit: int, r: Result<T, E>) -> bool {
        &&& (r is Err ==> exit == entry)
        &&& (self.owned() matches Some(p) ==> exists|m: int|
            #[trigger] p.parsed(src, entry, m, r) && (r is Ok ==> exit == m))
    }

    fn parse(&self, buf: &mut Buffer<'a>) -> (r: Result<T, E>) {
        let entry = buf.index();
        let rc = self.inner.get_rc();
        let res = rc.parse(buf);
        let ghost mchild = buf.pos();
        proof {
            let ghost ow = self.owned();
            match ow {
                Option::Some(p) => {
                    assert(*rc == p);
                    assert(p.parsed(old(buf).src(), old(buf).pos(), mchild, res));
                },
                Option::None => {},
            }
        }
        match res {
            Ok(t) => Ok(t),
            Err(e) => {
                buf.set_index(entry);
                Err(e)
            },
        }
    }
}

} // verus!
