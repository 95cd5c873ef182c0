//! The number type that every computation of this crate is generic over.
//!
//! Rounding makes the usual algebraic laws (associativity, distributivity,
//! `sqrt(x) * sqrt(x) == x`) false for machine numbers, so none of them is
//! assumed here. A [`Scalar`] only promises that each operation is a function
//! of its operands, and that its two comparisons are those of an order.
//! Every contract of this crate is stated over the operations' results.

use vstd::prelude::*;

verus! {

/// A real number type: a machine float, a fixed point number, ...
///
/// Each executable operation comes with a specification function naming its
/// result. An implementation promises that the operation is deterministic:
/// equal operands give equal results.
pub trait Scalar: Sized + Copy {
    /// The additive identity.
    spec fn zero_value() -> Self;

    /// The multiplicative identity.
    spec fn one_value() -> Self;

    /// The natural number `n`, or the number closest to it.
    spec fn of_natural(n: u64) -> Self;

    /// `self + rhs`
    spec fn sum(self, rhs: Self) -> Self;

    /// `self - rhs`
    spec fn difference(self, rhs: Self) -> Self;

    /// `self * rhs`
    spec fn product(self, rhs: Self) -> Self;

    /// `self / rhs`
    spec fn quotient(self, rhs: Self) -> Self;

    /// `-self`
    spec fn negation(self) -> Self;

    /// `|self|`
    spec fn magnitude(self) -> Self;

    /// The square root of `self`, whatever the operation yields on a negative number.
    spec fn root(self) -> Self;

    /// `self * a + b`, computed in one step.
    spec fn fused(self, a: Self, b: Self) -> Self;

    /// Whether `self` is a number, and neither infinity.
    spec fn finite(self) -> bool;

    /// `self < rhs`
    spec fn below(self, rhs: Self) -> bool;

    /// `self <= rhs`
    spec fn at_most(self, rhs: Self) -> bool;

    /// A number strictly below another is at most that other.
    proof fn lemma_below_is_at_most(a: Self, b: Self)
        requires
            a.below(b),
        ensures
            a.at_most(b),
    ;

    /// A number strictly below another is not at least that other.
    proof fn lemma_below_excludes_at_least(a: Self, b: Self)
        requires
            a.below(b),
        ensures
            !b.at_most(a),
    ;

    /// What is strictly below a number is strictly below what that number
    /// is strictly below.
    proof fn lemma_below_is_transitive(a: Self, b: Self, c: Self)
        requires
            a.below(b),
            b.below(c),
        ensures
            a.below(c),
    ;

    /// The additive identity.
    fn zero() -> (r: Self)
        ensures
            r == Self::zero_value(),
    ;

    /// The multiplicative identity.
    fn one() -> (r: Self)
        ensures
            r == Self::one_value(),
    ;

    /// The natural number `n`, or the number closest to it.
    fn from_natural(n: u64) -> (r: Self)
        ensures
            r == Self::of_natural(n),
    ;

    /// `self + rhs`
    fn add(self, rhs: Self) -> (r: Self)
        ensures
            r == self.sum(rhs),
    ;

    /// `self - rhs`
    fn sub(self, rhs: Self) -> (r: Self)
        ensures
            r == self.difference(rhs),
    ;

    /// `self * rhs`
    fn mul(self, rhs: Self) -> (r: Self)
        ensures
            r == self.product(rhs),
    ;

    /// `self / rhs`
    fn div(self, rhs: Self) -> (r: Self)
        ensures
            r == self.quotient(rhs),
    ;

    /// `-self`
    fn neg(self) -> (r: Self)
        ensures
            r == self.negation(),
    ;

    /// `|self|`
    fn abs(self) -> (r: Self)
        ensures
            r == self.magnitude(),
    ;

    /// The square root of `self`.
    fn sqrt(self) -> (r: Self)
        ensures
            r == self.root(),
    ;

    /// `self * a + b`, computed in one step.
    fn mul_add(self, a: Self, b: Self) -> (r: Self)
        ensures
            r == self.fused(a, b),
    ;

    /// Whether `self` is a number, and neither infinity.
    fn is_finite(self) -> (r: bool)
        ensures
            r == self.finite(),
    ;

    /// `self < rhs`
    fn lt(self, rhs: Self) -> (r: bool)
        ensures
            r == self.below(rhs),
    ;

    /// `self <= rhs`
    fn le(self, rhs: Self) -> (r: bool)
        ensures
            r == self.at_most(rhs),
    ;
}

/// `x + x`
pub open spec fn doubled<S: Scalar>(x: S) -> S {
    x.sum(x)
}

/// `x * x`
pub open spec fn squared<S: Scalar>(x: S) -> S {
    x.product(x)
}

/// `1 / x`
pub open spec fn reciprocal<S: Scalar>(x: S) -> S {
    S::one_value().quotient(x)
}

/// The square root of a number that is at least zero, and nothing otherwise.
pub open spec fn checked_root<S: Scalar>(x: S) -> Option<S> {
    if S::zero_value().at_most(x) {
        Some(x.root())
    } else {
        None
    }
}

/// No number is strictly below itself, nor are two numbers strictly below each other.
pub proof fn lemma_below_asymmetric<S: Scalar>(a: S, b: S)
    requires
        a.below(b),
    ensures
        !b.below(a),
{
    if b.below(a) {
        S::lemma_below_is_at_most(b, a);
        S::lemma_below_excludes_at_least(a, b);
    }
}

/// `1 / x`
pub fn recip<S: Scalar>(x: S) -> (r: S)
    ensures
        r == reciprocal(x),
{
    S::one().div(x)
}

/// The square root of `x` if `x` is at least zero.
pub fn try_sqrt<S: Scalar>(x: S) -> (r: Option<S>)
    ensures
        r == checked_root(x),
{
    if S::zero().le(x) {
        Some(x.sqrt())
    } else {
        None
    }
}

} // verus!
