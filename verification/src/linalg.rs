//! The two dense linear algebra routines that flat mirrors rest on.
//!
//! Inverting a matrix and orthonormalising a family of vectors are left to the
//! number type: how they pivot and round is its business. What this crate
//! needs of them is that each is a function of its arguments; the contracts of
//! the flat shapes are stated over the results' names.

use crate::scalar::Scalar;
use crate::vector::Vector;
use vstd::prelude::*;

verus! {

/// A [`Scalar`] that comes with matrix inversion and orthonormalisation.
pub trait LinearAlgebra: Scalar {
    /// The inverse of the square matrix with the given columns, as columns,
    /// or `None` where the routine finds the matrix singular.
    spec fn inverse<const D: usize>(columns: [Vector<Self, D>; D]) -> Option<[Vector<Self, D>; D]>;

    /// What orthonormalising `family` puts in its place, and the number of
    /// independent vectors found in it.
    spec fn orthonormalized<const D: usize>(family: &[Vector<Self, D>]) -> (
        Vec<Vector<Self, D>>,
        usize,
    );

    /// Inverts the square matrix with the given columns, if it can be.
    fn try_inverse<const D: usize>(columns: &[Vector<Self, D>; D]) -> (r: Option<
        [Vector<Self, D>; D],
    >)
        ensures
            r == Self::inverse(*columns),
    ;

    /// Orthonormalises `family`: hands out as many vectors as it was
    /// given, and the number of independent vectors found among them.
    fn orthonormalize<const D: usize>(family: &[Vector<Self, D>]) -> (r: (
        Vec<Vector<Self, D>>,
        usize,
    ))
        ensures
            r.0@ == Self::orthonormalized(family).0@,
            r.1 == Self::orthonormalized(family).1,
            r.0@.len() == family@.len(),
    ;
}

/// The `i`-th coordinate of the product of the matrix with the given columns
/// and `x`: the `i`-th coordinates of the first `n` columns, each weighed by
/// the coordinate of `x` that goes with it, summed from the left.
pub open spec fn row_times<S: Scalar, const D: usize>(
    columns: Seq<Vector<S, D>>,
    x: Seq<S>,
    i: int,
    n: nat,
) -> S
    decreases n,
{
    if n == 0 {
        S::zero_value()
    } else {
        row_times(columns, x, i, (n - 1) as nat).sum(columns[n - 1]@[i].product(x[n - 1]))
    }
}

/// The product of the matrix with the given columns and the column vector `x`.
pub open spec fn matrix_times<S: Scalar, const D: usize>(
    columns: Seq<Vector<S, D>>,
    x: Seq<S>,
) -> Seq<S> {
    Seq::new(D as nat, |i: int| row_times(columns, x, i, D as nat))
}

/// The product of the matrix with the given columns and `x`.
pub fn mat_vec<S: Scalar, const D: usize>(columns: &[Vector<S, D>; D], x: &Vector<S, D>) -> (r:
    Vector<S, D>)
    ensures
        r@ == matrix_times(columns@, x@),
{
    broadcast use vstd::array::group_array_axioms;

    let mut out = x.coords;
    let mut i: usize = 0;
    while i < D
        invariant
            i <= D,
            forall|k: int| 0 <= k < i ==> out@[k] == row_times(columns@, x@, k, D as nat),
        decreases D - i,
    {
        let mut acc = S::zero();
        let mut j: usize = 0;
        while j < D
            invariant
                i < D,
                j <= D,
                acc == row_times(columns@, x@, i as int, j as nat),
            decreases D - j,
        {
            acc = acc.add(columns[j].coords[i].mul(x.coords[j]));
            j += 1;
        }
        out[i] = acc;
        i += 1;
    }
    Vector { coords: out }
}

} // verus!
