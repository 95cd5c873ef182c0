//! Spheres: circles in the plane, and their like in every dimension.

use crate::ctx::{as_tangents, SimulationCtx, Tangent};
use crate::equal::{equal, equal_coordinates, same};
use crate::mirror::Mirror;
use crate::ray::Ray;
use crate::scalar::{checked_root, try_sqrt, Scalar};
use crate::vector::{
    difference_of, dot, lemma_vector_of_view, norm_squared, unscaled, vector_of, Vector,
};
use vstd::prelude::*;
use vstd::std_specs::cmp::PartialEqSpecImpl;

verus! {

/// The points at distance `radius` from `center`.
#[derive(Debug)]
pub struct Sphere<S, const D: usize> {
    pub center: Vector<S, D>,
    radius: S,
    radius_sq: S,
}

impl<S: Copy, const D: usize> Clone for Sphere<S, D> {
    fn clone(&self) -> (r: Self)
        ensures
            r == *self,
    {
        *self
    }
}

impl<S: Copy, const D: usize> Copy for Sphere<S, D> {

}

impl<S: Scalar, const D: usize> Sphere<S, D> {
    /// The centre.
    pub closed spec fn spec_center(&self) -> Vector<S, D> {
        self.center
    }

    /// The radius.
    pub closed spec fn spec_radius(&self) -> S {
        self.radius
    }

    /// The square of the radius, as it was given.
    pub closed spec fn spec_radius_sq(&self) -> S {
        self.radius_sq
    }

    /// The sphere of the given centre, radius and squared radius.
    pub closed spec fn of(center: Vector<S, D>, radius: S, radius_sq: S) -> Self {
        Sphere { center, radius, radius_sq }
    }

    /// What a sphere is made of is what it holds.
    pub proof fn lemma_of(center: Vector<S, D>, radius: S, radius_sq: S)
        ensures
            (#[trigger] Self::of(center, radius, radius_sq)).spec_center() == center,
            Self::of(center, radius, radius_sq).spec_radius() == radius,
            Self::of(center, radius, radius_sq).spec_radius_sq() == radius_sq,
    {
    }

    /// A sphere is made of its centre, its radius and its squared radius.
    pub proof fn lemma_ext(&self)
        ensures
            *self == Self::of(self.spec_center(), self.spec_radius(), self.spec_radius_sq()),
    {
    }

    /// The sphere around `center` of radius the magnitude of `radius`, if
    /// that is above zero.
    pub open spec fn checked(center: Vector<S, D>, radius: S) -> Option<Self> {
        if S::zero_value().below(radius.magnitude()) {
            Some(Self::of(center, radius.magnitude(), radius.product(radius)))
        } else {
            None
        }
    }

    /// The two distances along `ray` at which its line meets the sphere, the
    /// smaller first; `None` where the line misses the sphere.
    ///
    /// The point at distance `t` is on the sphere where
    /// `t^2 + 2 b t + c = 0`, with `b = (origin - center) . dir` and
    /// `c = |origin - center|^2 - radius^2`: the direction being of norm
    /// one, the roots are `-b - sqrt(b^2 - c)` and `-b + sqrt(b^2 - c)`.
    pub open spec fn roots(&self, ray: Ray<S, D>) -> Option<(S, S)> {
        let v = difference_of(ray.origin@, self.spec_center()@);
        let b = dot(v, ray.dir@);
        let c = norm_squared(v).difference(self.spec_radius_sq());
        match checked_root(b.fused(b, c.negation())) {
            Some(root) => Some((b.negation().difference(root), b.negation().sum(root))),
            None => None,
        }
    }

    /// The normal to the sphere at distance `t` along `ray`, pointing outwards.
    pub open spec fn normal_at(&self, ray: Ray<S, D>, t: S) -> Vector<S, D> {
        vector_of(
            unscaled(
                difference_of(ray.point_at(t), self.spec_center()@),
                self.spec_radius().magnitude(),
            ),
        )
    }

    /// The tangents to the sphere along the line of `ray`: two or none, each
    /// a distance and the normal at that distance.
    pub open spec fn tangents_at(&self, ray: Ray<S, D>) -> Seq<(S, Vector<S, D>)> {
        match self.roots(ray) {
            Some((t1, t2)) => seq![(t1, self.normal_at(ray, t1)), (t2, self.normal_at(ray, t2))],
            None => Seq::empty(),
        }
    }

    /// The sphere around `center`, unless the radius is degenerate: its
    /// magnitude, which is what is kept, must be above zero.
    pub fn new(center: Vector<S, D>, radius: S) -> (r: Option<Self>)
        ensures
            r == Self::checked(center, radius),
            r.is_some() <==> S::zero_value().below(radius.magnitude()),
            r matches Some(s) ==> {
                &&& s.spec_center() == center
                &&& s.spec_radius() == radius.magnitude()
                &&& s.spec_radius_sq() == radius.product(radius)
            },
    {
        let abs = radius.abs();
        if S::zero().lt(abs) {
            Some(Sphere { center, radius: abs, radius_sq: radius.mul(radius) })
        } else {
            None
        }
    }

    /// The centre.
    pub fn center(&self) -> (r: &Vector<S, D>)
        ensures
            *r == self.spec_center(),
    {
        &self.center
    }

    /// The radius.
    pub fn radius(&self) -> (r: &S)
        ensures
            *r == self.spec_radius(),
    {
        &self.radius
    }

    /// Replaces the radius by the magnitude of `r`.
    pub fn set_radius(&mut self, r: S)
        ensures
            final(self).spec_center() == old(self).spec_center(),
            final(self).spec_radius() == r.magnitude(),
            final(self).spec_radius_sq() == r.product(r),
    {
        self.radius = r.abs();
        self.radius_sq = r.mul(r);
    }

    /// The distances, possibly negative, at which the line of `ray` meets
    /// the sphere.
    pub fn intersections(&self, ray: &Ray<S, D>) -> (r: Option<[S; 2]>)
        ensures
            r.is_some() == self.roots(*ray).is_some(),
            r matches Some(ds) ==> Some((ds[0], ds[1])) == self.roots(*ray),
    {
        let v = ray.origin.sub(&self.center);
        let b = v.dot(&ray.dir);
        let c = v.norm_squared().sub(self.radius_sq);
        let delta = b.mul_add(b, c.neg());
        match try_sqrt(delta) {
            Some(root) => {
                let neg_b = b.neg();
                Some([neg_b.sub(root), neg_b.add(root)])
            },
            None => None,
        }
    }

    fn normal_at_distance(&self, ray: &Ray<S, D>, t: S) -> (r: Vector<S, D>)
        ensures
            r == self.normal_at(*ray, t),
    {
        let normal = ray.at(t).sub(&self.center).unscale(self.radius.abs());
        proof {
            lemma_vector_of_view(normal);
        }
        normal
    }

    /// The distances at which the line of `ray` meets the sphere, each with
    /// the unit normal to the sphere there, pointing outwards.
    pub fn tangents_at_intersections(&self, ray: &Ray<S, D>) -> (r: Option<[(S, Vector<S, D>); 2]>)
        ensures
            r.is_some() == self.roots(*ray).is_some(),
            r matches Some(ts) ==> ts@ == self.tangents_at(*ray),
    {
        match self.intersections(ray) {
            Some(ds) => {
                let t1 = ds[0];
                let t2 = ds[1];
                let ts = [
                    (t1, self.normal_at_distance(ray, t1)),
                    (t2, self.normal_at_distance(ray, t2)),
                ];
                assert(ts@ =~= self.tangents_at(*ray));
                Some(ts)
            },
            None => None,
        }
    }
}

impl<S: Scalar, const D: usize> Mirror<S, D> for Sphere<S, D> {
    open spec fn tangents(&self, ray: Ray<S, D>) -> Seq<Tangent<S, D>> {
        as_tangents(self.tangents_at(ray))
    }

    fn add_tangents(&self, ctx: &mut SimulationCtx<'_, S, D>) {
        let mut found: Vec<(S, Vector<S, D>)> = Vec::new();
        if let Some(ts) = self.tangents_at_intersections(ctx.ray()) {
            found.push(ts[0]);
            found.push(ts[1]);
            assert(found@ =~= ts@);
        }
        ctx.add_normals(&found);
    }
}

impl<S: Scalar, const D: usize> PartialEq for Sphere<S, D> {
    fn eq(&self, other: &Self) -> (r: bool) {
        self.center == other.center && same(self.radius, other.radius) && same(
            self.radius_sq,
            other.radius_sq,
        )
    }
}

impl<S: Scalar, const D: usize> PartialEqSpecImpl for Sphere<S, D> {
    open spec fn obeys_eq_spec() -> bool {
        true
    }

    open spec fn eq_spec(&self, other: &Self) -> bool {
        &&& equal_coordinates(self.spec_center()@, other.spec_center()@)
        &&& equal(self.spec_radius(), other.spec_radius())
        &&& equal(self.spec_radius_sq(), other.spec_radius_sq())
    }
}

} // verus!
