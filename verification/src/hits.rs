//! The tangents that a round shape finds along a ray: at most two, one for
//! each root of its equation that is kept.

use crate::ctx::present;
use crate::scalar::Scalar;
use crate::vector::Vector;
use vstd::prelude::*;

verus! {

broadcast use vstd::array::group_array_axioms;

/// `arrayvec::ArrayVec`: a list that holds its elements in place, up to
/// `CAP` of them.
#[verifier::external_type_specification]
#[verifier::external_body]
#[verifier::reject_recursive_types(T)]
pub struct ExArrayVec<T, const CAP: usize>(arrayvec::ArrayVec<T, CAP>);

/// What a list of at most two indices holds, in its order.
pub uninterp spec fn held(list: arrayvec::ArrayVec<usize, 2>) -> Seq<usize>;

/// `ArrayVec::new`: a list that holds nothing.
#[verifier::external_body]
fn indices_new() -> (r: arrayvec::ArrayVec<usize, 2>)
    ensures
        held(r) == Seq::<usize>::empty(),
{
    arrayvec::ArrayVec::new()
}

/// `ArrayVec::push`: adds `index` at the end. It panics where the list is
/// full, which `requires` leaves out.
#[verifier::external_body]
fn indices_push(list: &mut arrayvec::ArrayVec<usize, 2>, index: usize)
    requires
        held(*old(list)).len() < 2,
    ensures
        held(*final(list)) == held(*old(list)).push(index),
{
    list.push(index)
}

/// `ArrayVec::as_slice`: the elements, in their order.
#[verifier::external_body]
fn indices_as_slice(list: &arrayvec::ArrayVec<usize, 2>) -> (r: &[usize])
    ensures
        r@ == held(*list),
{
    list.as_slice()
}

/// A tangent for each of the two roots of a shape's equation, and which of
/// the two are kept: both, one or none.
pub struct Hits<S, const D: usize> {
    found: [(S, Vector<S, D>); 2],
    kept: arrayvec::ArrayVec<usize, 2>,
}

impl<S, const D: usize> View for Hits<S, D> {
    type V = Seq<(S, Vector<S, D>)>;

    /// The tangents that are kept, in their order.
    closed spec fn view(&self) -> Seq<(S, Vector<S, D>)> {
        Seq::new(held(self.kept).len(), |k: int| self.found@[held(self.kept)[k] as int])
    }
}

impl<S, const D: usize> Hits<S, D> {
    #[verifier::type_invariant]
    spec fn kept_are_found(&self) -> bool {
        &&& held(self.kept).len() <= 2
        &&& forall|k: int| 0 <= k < held(self.kept).len() ==> #[trigger] held(self.kept)[k] < 2
    }
}

impl<S: Scalar, const D: usize> Hits<S, D> {
    /// No tangent.
    pub fn none() -> (r: Self)
        ensures
            r@ == Seq::<(S, Vector<S, D>)>::empty(),
    {
        let filler = (S::zero(), Vector::zeros());
        let r = Hits { found: [filler, filler], kept: indices_new() };
        assert(r@ =~= Seq::<(S, Vector<S, D>)>::empty());
        r
    }

    /// The tangents among `first` and `second` that are there, in that order.
    pub fn of(first: Option<(S, Vector<S, D>)>, second: Option<(S, Vector<S, D>)>) -> (r: Self)
        ensures
            r@ == present(first) + present(second),
    {
        let filler = (S::zero(), Vector::zeros());
        let mut found = [filler, filler];
        let mut kept = indices_new();
        if let Some(x) = first {
            found[0] = x;
            indices_push(&mut kept, 0);
        }
        if let Some(x) = second {
            found[1] = x;
            indices_push(&mut kept, 1);
        }
        let r = Hits { found, kept };
        assert(r@ =~= present(first) + present(second));
        r
    }

    /// The number of tangents.
    pub fn len(&self) -> (r: usize)
        ensures
            r == self@.len(),
            r <= 2,
    {
        proof {
            use_type_invariant(self);
        }
        indices_as_slice(&self.kept).len()
    }

    /// Whether there is no tangent.
    pub fn is_empty(&self) -> (r: bool)
        ensures
            r == (self@.len() == 0),
    {
        self.len() == 0
    }

    /// The `k`-th tangent.
    pub fn get(&self, k: usize) -> (r: (S, Vector<S, D>))
        requires
            k < self@.len(),
        ensures
            r == self@[k as int],
    {
        proof {
            use_type_invariant(self);
        }
        let kept = indices_as_slice(&self.kept);
        self.found[kept[k]]
    }

    /// The tangents, in their order.
    pub fn to_vec(&self) -> (r: Vec<(S, Vector<S, D>)>)
        ensures
            r@ == self@,
    {
        let n = self.len();
        let mut out: Vec<(S, Vector<S, D>)> = Vec::new();
        let mut k: usize = 0;
        while k < n
            invariant
                k <= n,
                n == self@.len(),
                out@ == self@.subrange(0, k as int),
            decreases n - k,
        {
            out.push(self.get(k));
            assert(self@.subrange(0, k + 1) =~= self@.subrange(0, k as int).push(self@[k as int]));
            k += 1;
        }
        assert(self@.subrange(0, n as int) =~= self@);
        out
    }
}

} // verus!
