//! Rays: a point and the direction in which light leaves it.

use crate::hyperplane::Hyperplane;
use crate::scalar::Scalar;
use crate::vector::{norm_squared, normalized, scaled_sum, VMulAdd, Vector};
use vstd::prelude::*;

verus! {

/// Whether `dir` can be the direction of a ray: its squared norm is a finite
/// number above zero. That leaves out the zero vector and every vector with
/// a coordinate that is infinite or not a number.
pub open spec fn is_direction<S: Scalar>(dir: Seq<S>) -> bool {
    norm_squared(dir).finite() && S::zero_value().below(norm_squared(dir))
}

/// A half-line: where it starts and which way it goes.
#[derive(Debug)]
pub struct Ray<S, const D: usize> {
    /// The starting point.
    pub origin: Vector<S, D>,
    /// The direction, of norm one up to rounding.
    pub dir: Vector<S, D>,
}

impl<S: Copy, const D: usize> Clone for Ray<S, D> {
    fn clone(&self) -> (r: Self)
        ensures
            r == *self,
    {
        *self
    }
}

impl<S: Copy, const D: usize> Copy for Ray<S, D> {

}

impl<S: Scalar, const D: usize> Ray<S, D> {
    /// The point at distance `t` along the ray, behind its origin if `t` is negative.
    pub open spec fn point_at(&self, t: S) -> Seq<S> {
        scaled_sum(self.dir@, t, self.origin@)
    }

    /// The ray from `origin` along `dir`, which is taken as it is: the
    /// caller answers for its norm being one.
    pub fn new_unchecked_dir(origin: Vector<S, D>, dir: Vector<S, D>) -> (r: Self)
        ensures
            r.origin == origin,
            r.dir == dir,
    {
        Ray { origin, dir }
    }

    /// The ray from `origin` along `dir` brought to norm one, or `None` if
    /// `dir` is zero or not finite.
    pub fn try_new(origin: Vector<S, D>, dir: Vector<S, D>) -> (r: Option<Self>)
        ensures
            r.is_some() <==> is_direction(dir@),
            r matches Some(ray) ==> ray.origin == origin && ray.dir@ == normalized(dir@),
    {
        let sq_norm = dir.norm_squared();
        if sq_norm.is_finite() && S::zero().lt(sq_norm) {
            Some(Ray { origin, dir: dir.unscale(sq_norm.sqrt()) })
        } else {
            None
        }
    }

    /// The ray from `origin` along `dir` brought to norm one.
    pub fn new(origin: Vector<S, D>, dir: Vector<S, D>) -> (r: Self)
        requires
            is_direction(dir@),
        ensures
            r.origin == origin,
            r.dir@ == normalized(dir@),
    {
        Ray { origin, dir: dir.normalize() }
    }

    /// Reflects the direction across `plane` and brings it back to norm one.
    pub fn reflect_dir(&mut self, plane: &Hyperplane<S, D>)
        ensures
            final(self).origin == old(self).origin,
            final(self).dir@ == normalized(plane.reflected(old(self).dir@)),
    {
        self.dir = plane.reflect_unit(&self.dir);
    }

    /// Reflects the direction across `plane` without renormalising it: see
    /// [`Hyperplane::reflect_unit_optimised`].
    pub fn reflect_dir_optimised(&mut self, plane: &Hyperplane<S, D>)
        ensures
            final(self).origin == old(self).origin,
            final(self).dir@ == plane.reflected(old(self).dir@),
    {
        self.dir = plane.reflect_unit_optimised(&self.dir);
    }

    /// Moves the origin by `t` along the direction.
    pub fn advance(&mut self, t: S)
        ensures
            final(self).origin@ == old(self).point_at(t),
            final(self).dir == old(self).dir,
    {
        self.origin = self.dir.mul_add(t, &self.origin);
    }

    /// The point at distance `t` along the ray.
    pub fn at(&self, t: S) -> (r: Vector<S, D>)
        ensures
            r@ == self.point_at(t),
    {
        self.dir.mul_add(t, &self.origin)
    }
}

} // verus!
