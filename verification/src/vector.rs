//! Fixed-size coordinate tuples and their algebra.

use crate::scalar::Scalar;
use vstd::prelude::*;

verus! {

broadcast use vstd::array::group_array_axioms;

/// Coordinate by coordinate `a + b`.
pub open spec fn sum_of<S: Scalar>(a: Seq<S>, b: Seq<S>) -> Seq<S> {
    Seq::new(a.len(), |i: int| a[i].sum(b[i]))
}

/// Coordinate by coordinate `a - b`.
pub open spec fn difference_of<S: Scalar>(a: Seq<S>, b: Seq<S>) -> Seq<S> {
    Seq::new(a.len(), |i: int| a[i].difference(b[i]))
}

/// Every coordinate of `a` times `t`.
pub open spec fn scaled<S: Scalar>(a: Seq<S>, t: S) -> Seq<S> {
    Seq::new(a.len(), |i: int| a[i].product(t))
}

/// Every coordinate of `a` divided by `t`.
pub open spec fn unscaled<S: Scalar>(a: Seq<S>, t: S) -> Seq<S> {
    Seq::new(a.len(), |i: int| a[i].quotient(t))
}

/// Every coordinate of `a` with its sign flipped.
pub open spec fn negated<S: Scalar>(a: Seq<S>) -> Seq<S> {
    Seq::new(a.len(), |i: int| a[i].negation())
}

/// `a[0] * b[0] + ... + a[n - 1] * b[n - 1]`, summed from the left, starting at zero.
pub open spec fn dot_prefix<S: Scalar>(a: Seq<S>, b: Seq<S>, n: nat) -> S
    decreases n,
{
    if n == 0 {
        S::zero_value()
    } else {
        dot_prefix(a, b, (n - 1) as nat).sum(a[n - 1].product(b[n - 1]))
    }
}

/// The dot product of two tuples of the same size.
pub open spec fn dot<S: Scalar>(a: Seq<S>, b: Seq<S>) -> S {
    dot_prefix(a, b, a.len())
}

/// The squared euclidean norm.
pub open spec fn norm_squared<S: Scalar>(a: Seq<S>) -> S {
    dot(a, a)
}

/// The euclidean norm.
pub open spec fn norm<S: Scalar>(a: Seq<S>) -> S {
    norm_squared(a).root()
}

/// `a * t + b`
pub open spec fn scaled_sum<S: Scalar>(a: Seq<S>, t: S, b: Seq<S>) -> Seq<S> {
    sum_of(scaled(a, t), b)
}

/// `a` divided by its norm.
pub open spec fn normalized<S: Scalar>(a: Seq<S>) -> Seq<S> {
    unscaled(a, norm(a))
}

/// `a` divided by its norm, if its squared norm is above the square of `min_norm`.
pub open spec fn checked_normalized<S: Scalar>(a: Seq<S>, min_norm: S) -> Option<Seq<S>> {
    if min_norm.product(min_norm).below(norm_squared(a)) {
        Some(normalized(a))
    } else {
        None
    }
}

/// A point or a direction of `D`-dimensional space.
#[derive(Debug)]
pub struct Vector<S, const D: usize> {
    pub coords: [S; D],
}

impl<S: Copy, const D: usize> Clone for Vector<S, D> {
    fn clone(&self) -> (r: Self)
        ensures
            r == *self,
    {
        *self
    }
}

impl<S: Copy, const D: usize> Copy for Vector<S, D> {

}

impl<S, const D: usize> View for Vector<S, D> {
    type V = Seq<S>;

    open spec fn view(&self) -> Seq<S> {
        self.coords@
    }
}

/// The array whose elements are those of `s`, where `s` has `N` of them.
pub closed spec fn array_of<T, const N: usize>(s: Seq<T>) -> [T; N] {
    choose|a: [T; N]| a@ == s
}

/// The array that agrees with `s` on its first `n` elements.
spec fn array_of_prefix<T: Copy, const N: usize>(s: Seq<T>, n: nat) -> [T; N]
    decreases n,
{
    if n == 0 {
        vstd::array::spec_array_fill_for_copy_type(s[0])
    } else {
        vstd::array::spec_array_update(array_of_prefix(s, (n - 1) as nat), n - 1, s[n - 1])
    }
}

proof fn lemma_array_of_prefix<T: Copy, const N: usize>(s: Seq<T>, n: nat)
    requires
        n <= N,
    ensures
        forall|i: int| 0 <= i < n ==> array_of_prefix::<T, N>(s, n)@[i] == s[i],
    decreases n,
{
    if n > 0 {
        lemma_array_of_prefix::<T, N>(s, (n - 1) as nat);
    }
}

/// [`array_of`] has the elements it was given.
pub proof fn lemma_array_of<T: Copy, const N: usize>(s: Seq<T>)
    requires
        s.len() == N,
    ensures
        array_of::<T, N>(s)@ == s,
{
    lemma_array_of_prefix::<T, N>(s, N as nat);
    assert(array_of_prefix::<T, N>(s, N as nat)@ =~= s);
}

/// An array is [`array_of`] its elements.
pub proof fn lemma_array_of_view<T, const N: usize>(a: [T; N])
    ensures
        array_of::<T, N>(a@) == a,
{
    assert(array_of::<T, N>(a@) =~= a);
}

/// The vector whose coordinates are those of `s`, where `s` has `D` of them.
pub open spec fn vector_of<S, const D: usize>(s: Seq<S>) -> Vector<S, D> {
    Vector { coords: array_of(s) }
}

/// Two vectors with the same coordinates are the same vector.
pub proof fn lemma_vector_ext<S, const D: usize>(a: Vector<S, D>, b: Vector<S, D>)
    requires
        a@ == b@,
    ensures
        a == b,
{
    assert(a.coords =~= b.coords);
}

/// [`vector_of`] has the coordinates it was given.
pub proof fn lemma_vector_of<S: Copy, const D: usize>(s: Seq<S>)
    requires
        s.len() == D,
    ensures
        vector_of::<S, D>(s)@ == s,
{
    lemma_array_of::<S, D>(s);
}

/// A vector is [`vector_of`] its coordinates.
pub proof fn lemma_vector_of_view<S, const D: usize>(v: Vector<S, D>)
    ensures
        vector_of::<S, D>(v@) == v,
{
    lemma_array_of_view(v.coords);
}

/// Vectors that can be scaled and added to in one operation.
pub trait VMulAdd<S: Scalar>: Sized + View<V = Seq<S>> {
    /// `self * t + other`
    fn mul_add(&self, t: S, other: &Self) -> (r: Self)
        ensures
            r@ == scaled_sum(self@, t, other@),
    ;
}

impl<S: Scalar, const D: usize> Vector<S, D> {
    /// The vector of the given coordinates.
    pub fn new(coords: [S; D]) -> (r: Self)
        ensures
            r.coords == coords,
    {
        Vector { coords }
    }

    /// The vector whose coordinates are all zero.
    pub fn zeros() -> (r: Self)
        ensures
            r@ == Seq::new(D as nat, |i: int| S::zero_value()),
    {
        Vector { coords: [S::zero();D] }
    }

    /// The number of coordinates.
    pub fn dim(&self) -> (r: usize)
        ensures
            r == D,
            r == self@.len(),
    {
        D
    }

    /// The `i`-th coordinate.
    pub fn get(&self, i: usize) -> (r: S)
        requires
            i < D,
        ensures
            r == self@[i as int],
    {
        self.coords[i]
    }

    /// `self + other`
    pub fn add(&self, other: &Self) -> (r: Self)
        ensures
            r@ == sum_of(self@, other@),
    {
        let mut out = self.coords;
        let mut i: usize = 0;
        while i < D
            invariant
                i <= D,
                forall|j: int| 0 <= j < i ==> out@[j] == self@[j].sum(other@[j]),
            decreases D - i,
        {
            out[i] = self.coords[i].add(other.coords[i]);
            i += 1;
        }
        Vector { coords: out }
    }

    /// `self - other`
    pub fn sub(&self, other: &Self) -> (r: Self)
        ensures
            r@ == difference_of(self@, other@),
    {
        let mut out = self.coords;
        let mut i: usize = 0;
        while i < D
            invariant
                i <= D,
                forall|j: int| 0 <= j < i ==> out@[j] == self@[j].difference(other@[j]),
            decreases D - i,
        {
            out[i] = self.coords[i].sub(other.coords[i]);
            i += 1;
        }
        Vector { coords: out }
    }

    /// `self * t`
    pub fn scale(&self, t: S) -> (r: Self)
        ensures
            r@ == scaled(self@, t),
    {
        let mut out = self.coords;
        let mut i: usize = 0;
        while i < D
            invariant
                i <= D,
                forall|j: int| 0 <= j < i ==> out@[j] == self@[j].product(t),
            decreases D - i,
        {
            out[i] = self.coords[i].mul(t);
            i += 1;
        }
        Vector { coords: out }
    }

    /// `self / t`
    pub fn unscale(&self, t: S) -> (r: Self)
        ensures
            r@ == unscaled(self@, t),
    {
        let mut out = self.coords;
        let mut i: usize = 0;
        while i < D
            invariant
                i <= D,
                forall|j: int| 0 <= j < i ==> out@[j] == self@[j].quotient(t),
            decreases D - i,
        {
            out[i] = self.coords[i].div(t);
            i += 1;
        }
        Vector { coords: out }
    }

    /// `-self`
    pub fn neg(&self) -> (r: Self)
        ensures
            r@ == negated(self@),
    {
        let mut out = self.coords;
        let mut i: usize = 0;
        while i < D
            invariant
                i <= D,
                forall|j: int| 0 <= j < i ==> out@[j] == self@[j].negation(),
            decreases D - i,
        {
            out[i] = self.coords[i].neg();
            i += 1;
        }
        Vector { coords: out }
    }

    /// The dot product of `self` and `other`.
    pub fn dot(&self, other: &Self) -> (r: S)
        ensures
            r == dot(self@, other@),
    {
        let mut acc = S::zero();
        let mut i: usize = 0;
        while i < D
            invariant
                i <= D,
                acc == dot_prefix(self@, other@, i as nat),
            decreases D - i,
        {
            acc = acc.add(self.coords[i].mul(other.coords[i]));
            i += 1;
        }
        acc
    }

    /// The squared euclidean norm of `self`.
    pub fn norm_squared(&self) -> (r: S)
        ensures
            r == norm_squared(self@),
    {
        self.dot(self)
    }

    /// The euclidean norm of `self`.
    pub fn norm(&self) -> (r: S)
        ensures
            r == norm(self@),
    {
        self.norm_squared().sqrt()
    }

    /// `self` divided by its norm.
    pub fn normalize(&self) -> (r: Self)
        ensures
            r@ == normalized(self@),
    {
        self.unscale(self.norm())
    }

    /// `self` divided by its norm, unless that norm is `min_norm` or less.
    pub fn try_normalize(&self, min_norm: S) -> (r: Option<Self>)
        ensures
            r.is_some() == checked_normalized(self@, min_norm).is_some(),
            r matches Some(v) ==> Some(v@) == checked_normalized(self@, min_norm),
    {
        let sq_norm = self.norm_squared();
        if min_norm.mul(min_norm).lt(sq_norm) {
            Some(self.unscale(sq_norm.sqrt()))
        } else {
            None
        }
    }
}

impl<S: Scalar, const D: usize> VMulAdd<S> for Vector<S, D> {
    fn mul_add(&self, t: S, other: &Self) -> (r: Self) {
        self.scale(t).add(other)
    }
}

} // verus!
