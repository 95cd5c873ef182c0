//! Equality of numbers, and of what is made of numbers.
//!
//! Two numbers are equal where each is at most the other: for machine
//! numbers, zero equals minus zero, and what is not a number equals nothing,
//! itself included.

use crate::ray::Ray;
use crate::scalar::Scalar;
use crate::vector::Vector;
use vstd::prelude::*;
use vstd::std_specs::cmp::PartialEqSpecImpl;

verus! {

broadcast use vstd::array::group_array_axioms;

/// Whether `a` and `b` are equal: each is at most the other.
pub open spec fn equal<S: Scalar>(a: S, b: S) -> bool {
    a.at_most(b) && b.at_most(a)
}

/// Whether `a` and `b` have as many coordinates, equal one by one.
pub open spec fn equal_coordinates<S: Scalar>(a: Seq<S>, b: Seq<S>) -> bool {
    a.len() == b.len() && forall|i: int| 0 <= i < a.len() ==> equal(#[trigger] a[i], b[i])
}

/// Whether `a` and `b` are as many vectors, equal one by one.
pub open spec fn equal_families<S: Scalar, const D: usize>(
    a: Seq<Vector<S, D>>,
    b: Seq<Vector<S, D>>,
) -> bool {
    a.len() == b.len() && forall|i: int|
        0 <= i < a.len() ==> equal_coordinates((#[trigger] a[i])@, b[i]@)
}

/// Tells whether `a` and `b` are equal.
pub fn same<S: Scalar>(a: S, b: S) -> (r: bool)
    ensures
        r == equal(a, b),
{
    a.le(b) && b.le(a)
}

/// Tells whether `a` and `b` are equal, vector by vector.
pub fn same_family<S: Scalar, const D: usize>(a: &[Vector<S, D>; D], b: &[Vector<S, D>; D]) -> (r:
    bool)
    ensures
        r == equal_families(a@, b@),
{
    let mut i: usize = 0;
    while i < D
        invariant
            i <= D,
            forall|k: int| 0 <= k < i ==> equal_coordinates((#[trigger] a@[k])@, b@[k]@),
        decreases D - i,
    {
        if !(a[i] == b[i]) {
            return false;
        }
        i += 1;
    }
    true
}

impl<S: Scalar, const D: usize> PartialEq for Vector<S, D> {
    fn eq(&self, other: &Self) -> (r: bool) {
        let mut i: usize = 0;
        while i < D
            invariant
                i <= D,
                forall|k: int| 0 <= k < i ==> equal(#[trigger] self@[k], other@[k]),
            decreases D - i,
        {
            if !same(self.coords[i], other.coords[i]) {
                return false;
            }
            i += 1;
        }
        true
    }
}

impl<S: Scalar, const D: usize> PartialEqSpecImpl for Vector<S, D> {
    open spec fn obeys_eq_spec() -> bool {
        true
    }

    open spec fn eq_spec(&self, other: &Self) -> bool {
        equal_coordinates(self@, other@)
    }
}

impl<S: Scalar, const D: usize> PartialEq for Ray<S, D> {
    fn eq(&self, other: &Self) -> (r: bool) {
        self.origin == other.origin && self.dir == other.dir
    }
}

impl<S: Scalar, const D: usize> PartialEqSpecImpl for Ray<S, D> {
    open spec fn obeys_eq_spec() -> bool {
        true
    }

    open spec fn eq_spec(&self, other: &Self) -> bool {
        equal_coordinates(self.origin@, other.origin@) && equal_coordinates(self.dir@, other.dir@)
    }
}

} // verus!
