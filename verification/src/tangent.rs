//! Tangent hyperplanes that say where they are, not how far.
//!
//! A mirror that knows a point of its tangent more readily than the distance
//! at which a ray meets it can report the tangent by that point. The
//! distance is then worked out from the ray. A tangent that the ray runs
//! parallel to has no such distance: a mirror must not report one.

use crate::ctx::{better, SimulationCtx};
use crate::equal::{equal, equal_coordinates, same};
use crate::hyperplane::{intersection_coordinates_of, Hyperplane};
use crate::linalg::LinearAlgebra;
use crate::ray::Ray;
use crate::scalar::Scalar;
use crate::vector::{difference_of, dot, Vector};
use vstd::prelude::*;
use vstd::std_specs::cmp::{PartialEqSpec, PartialEqSpecImpl};

verus! {

/// Where a tangent hyperplane is.
#[derive(Debug)]
pub enum Intersection<S, const D: usize> {
    /// At this distance along the ray that it is reported for.
    Distance(S),
    /// Through this point, which need not be on the ray.
    StartingPoint(Vector<S, D>),
}

impl<S: Copy, const D: usize> Clone for Intersection<S, D> {
    fn clone(&self) -> (r: Self)
        ensures
            r == *self,
    {
        *self
    }
}

impl<S: Copy, const D: usize> Copy for Intersection<S, D> {

}

/// A tangent hyperplane: where it is, and how it lies.
#[derive(Debug)]
pub struct Plane<S, const D: usize> {
    pub intersection: Intersection<S, D>,
    pub direction: Hyperplane<S, D>,
}

impl<S: Copy, const D: usize> Clone for Plane<S, D> {
    fn clone(&self) -> (r: Self)
        ensures
            r == *self,
    {
        *self
    }
}

impl<S: Copy, const D: usize> Copy for Plane<S, D> {

}

/// Whether `x` is zero, of either sign.
pub open spec fn is_zero<S: Scalar>(x: S) -> bool {
    x.at_most(S::zero_value()) && S::zero_value().at_most(x)
}

impl<S: LinearAlgebra, const D: usize> Hyperplane<S, D> {
    /// The distance along `ray` at which its line meets the hyperplane
    /// through `v0` that lies as `self` does; `None` if the two are parallel.
    pub open spec fn meeting_distance(&self, v0: Seq<S>, ray: Ray<S, D>) -> Option<S> {
        match self {
            Hyperplane::Plane(plane) => match intersection_coordinates_of(
                plane.spec_vectors(),
                ray.origin@,
                ray.dir,
                v0,
            ) {
                Some(coords) => Some(coords[0]),
                None => None,
            },
            Hyperplane::Normal(n) => {
                let u = dot(ray.dir@, n@);
                if is_zero(u) {
                    None
                } else {
                    Some(dot(difference_of(v0, ray.origin@), n@).quotient(u))
                }
            },
        }
    }

    /// The distance along `ray` at which its line meets the hyperplane
    /// through `v0` that lies as `self` does; `None` if the two are parallel.
    pub fn try_ray_intersection(&self, v0: &Vector<S, D>, ray: &Ray<S, D>) -> (r: Option<S>)
        requires
            D >= 1,
        ensures
            r == self.meeting_distance(v0@, *ray),
    {
        match self {
            Hyperplane::Plane(plane) => {
                match plane.as_basis().intersection_coordinates(ray, v0) {
                    Some(coords) => Some(coords.get(0)),
                    None => None,
                }
            },
            Hyperplane::Normal(n) => {
                let u = ray.dir.dot(n);
                if u.le(S::zero()) && S::zero().le(u) {
                    None
                } else {
                    Some(v0.sub(&ray.origin).dot(n).div(u))
                }
            },
        }
    }
}

impl<S: LinearAlgebra, const D: usize> Plane<S, D> {
    /// The distance along `ray` at which its line meets the tangent; `None`
    /// if the two are parallel.
    pub open spec fn distance_along(&self, ray: Ray<S, D>) -> Option<S> {
        match self.intersection {
            Intersection::Distance(t) => Some(t),
            Intersection::StartingPoint(p) => self.direction.meeting_distance(p@, ray),
        }
    }

    /// The distance along `ray` at which its line meets the tangent; `None`
    /// if the two are parallel.
    pub fn try_ray_intersection(&self, ray: &Ray<S, D>) -> (r: Option<S>)
        requires
            D >= 1,
        ensures
            r == self.distance_along(*ray),
    {
        match &self.intersection {
            Intersection::Distance(t) => Some(*t),
            Intersection::StartingPoint(p) => self.direction.try_ray_intersection(p, ray),
        }
    }
}

impl<'a, S: LinearAlgebra, const D: usize> SimulationCtx<'a, S, D> {
    /// Reports a tangent that the ray is not parallel to: see
    /// [`SimulationCtx::add_tangent`] for when it is kept.
    pub fn add_plane(&mut self, tangent: Plane<S, D>)
        requires
            D >= 1,
            tangent.distance_along(old(self).spec_ray()).is_some(),
        ensures
            final(self).spec_ray() == old(self).spec_ray(),
            final(self).eps() == old(self).eps(),
            final(self).best() == better(
                old(self).eps(),
                old(self).best(),
                (tangent.distance_along(old(self).spec_ray()).unwrap(), tangent.direction),
            ),
    {
        let dist = tangent.try_ray_intersection(self.ray()).unwrap();
        self.add_tangent(dist, tangent.direction);
    }

    /// Reports a tangent, unless the ray is parallel to it: tells whether
    /// it was reported.
    pub fn try_add_plane(&mut self, tangent: Plane<S, D>) -> (reported: bool)
        requires
            D >= 1,
        ensures
            final(self).spec_ray() == old(self).spec_ray(),
            final(self).eps() == old(self).eps(),
            reported == tangent.distance_along(old(self).spec_ray()).is_some(),
            final(self).best() == match tangent.distance_along(old(self).spec_ray()) {
                Some(dist) => better(old(self).eps(), old(self).best(), (dist, tangent.direction)),
                None => old(self).best(),
            },
    {
        match tangent.try_ray_intersection(self.ray()) {
            Some(dist) => {
                self.add_tangent(dist, tangent.direction);
                true
            },
            None => false,
        }
    }
}

impl<S: Scalar, const D: usize> PartialEq for Intersection<S, D> {
    fn eq(&self, other: &Self) -> (r: bool) {
        match (self, other) {
            (Intersection::Distance(a), Intersection::Distance(b)) => same(*a, *b),
            (Intersection::StartingPoint(a), Intersection::StartingPoint(b)) => a == b,
            _ => false,
        }
    }
}

impl<S: Scalar, const D: usize> PartialEqSpecImpl for Intersection<S, D> {
    open spec fn obeys_eq_spec() -> bool {
        true
    }

    open spec fn eq_spec(&self, other: &Self) -> bool {
        match (self, other) {
            (Intersection::Distance(a), Intersection::Distance(b)) => equal(*a, *b),
            (Intersection::StartingPoint(a), Intersection::StartingPoint(b)) => equal_coordinates(
                a@,
                b@,
            ),
            _ => false,
        }
    }
}

impl<S: Scalar, const D: usize> PartialEq for Plane<S, D> {
    fn eq(&self, other: &Self) -> (r: bool) {
        self.intersection == other.intersection && self.direction == other.direction
    }
}

impl<S: Scalar, const D: usize> PartialEqSpecImpl for Plane<S, D> {
    open spec fn obeys_eq_spec() -> bool {
        true
    }

    open spec fn eq_spec(&self, other: &Self) -> bool {
        PartialEqSpec::eq_spec(&self.intersection, &other.intersection) && PartialEqSpec::eq_spec(
            &self.direction,
            &other.direction,
        )
    }
}

} // verus!
