//! Cylinder-shaped mirrors: tubes in space, pairs of parallel segments in
//! the plane.

use crate::ctx::{as_tangents, present, SimulationCtx, Tangent};
use crate::equal::{equal, equal_coordinates, same};
use crate::hits::Hits;
use crate::mirror::Mirror;
use crate::ray::Ray;
use crate::scalar::{checked_root, doubled, recip, reciprocal, squared, try_sqrt, Scalar};
use crate::vector::{
    difference_of, dot, lemma_vector_of_view, norm_squared, scaled, sum_of, unscaled, vector_of,
    Vector,
};
use vstd::prelude::*;
use vstd::std_specs::cmp::PartialEqSpecImpl;

verus! {

/// An open cylinder: the points at distance `radius` from a line segment,
/// measured at right angles to it.
#[derive(Debug)]
pub struct Cylinder<S, const D: usize> {
    start: Vector<S, D>,
    dist: Vector<S, D>,
    inv_norm_dist_squared: S,
    radius: S,
    radius_sq: S,
}

impl<S: Copy, const D: usize> Clone for Cylinder<S, D> {
    fn clone(&self) -> (r: Self)
        ensures
            r == *self,
    {
        *self
    }
}

impl<S: Copy, const D: usize> Copy for Cylinder<S, D> {

}

impl<S: Scalar, const D: usize> Cylinder<S, D> {
    /// The first end of the axis.
    pub closed spec fn spec_start(&self) -> Vector<S, D> {
        self.start
    }

    /// The vector from the first end of the axis to the second.
    pub closed spec fn spec_segment_dist(&self) -> Vector<S, D> {
        self.dist
    }

    /// One over the squared length of the axis.
    pub closed spec fn spec_inv_norm_dist_squared(&self) -> S {
        self.inv_norm_dist_squared
    }

    /// The radius.
    pub closed spec fn spec_radius(&self) -> S {
        self.radius
    }

    /// The square of the radius, as it was given.
    pub closed spec fn spec_radius_sq(&self) -> S {
        self.radius_sq
    }

    /// The cylinder of the given parts.
    pub closed spec fn of(
        start: Vector<S, D>,
        dist: Vector<S, D>,
        inv_norm_dist_squared: S,
        radius: S,
        radius_sq: S,
    ) -> Self {
        Cylinder { start, dist, inv_norm_dist_squared, radius, radius_sq }
    }

    /// What a cylinder is made of is what it holds.
    pub proof fn lemma_of(
        start: Vector<S, D>,
        dist: Vector<S, D>,
        inv_norm_dist_squared: S,
        radius: S,
        radius_sq: S,
    )
        ensures
            ({
                let c = #[trigger] Self::of(start, dist, inv_norm_dist_squared, radius, radius_sq);
                &&& c.spec_start() == start
                &&& c.spec_segment_dist() == dist
                &&& c.spec_inv_norm_dist_squared() == inv_norm_dist_squared
                &&& c.spec_radius() == radius
                &&& c.spec_radius_sq() == radius_sq
            }),
    {
    }

    /// A cylinder is made of its parts.
    pub proof fn lemma_ext(&self)
        ensures
            *self == Self::of(
                self.spec_start(),
                self.spec_segment_dist(),
                self.spec_inv_norm_dist_squared(),
                self.spec_radius(),
                self.spec_radius_sq(),
            ),
    {
    }

    /// The cylinder around the segment from `start` to `end`, of radius the
    /// magnitude of `radius`, if that is above zero.
    pub open spec fn checked(start: Vector<S, D>, end: Vector<S, D>, radius: S) -> Option<Self> {
        if S::zero_value().below(radius.magnitude()) {
            let dist = difference_of(end@, start@);
            Some(
                Self::of(
                    start,
                    vector_of(dist),
                    reciprocal(norm_squared(dist)),
                    radius.magnitude(),
                    radius.product(radius),
                ),
            )
        } else {
            None
        }
    }

    /// How far along the axis `v` reaches, as a fraction of the axis: 0 at
    /// its first end, 1 at its second.
    pub open spec fn axis_coordinate(&self, v: Seq<S>) -> S {
        dot(self.spec_segment_dist()@, v).product(self.spec_inv_norm_dist_squared())
    }

    /// The part of `v` that runs along the axis.
    pub open spec fn along_axis(&self, v: Seq<S>) -> Seq<S> {
        scaled(self.spec_segment_dist()@, self.axis_coordinate(v))
    }

    /// The coefficients `(a, b, c)` of the equation `a t^2 + 2 b t + c = 0`
    /// that the distances `t` from the origin of `ray` to the infinite tube
    /// around the axis satisfy: the squared distance to the axis of the
    /// point at `t`, taken across the axis, is the squared radius.
    pub open spec fn quadratic(&self, ray: Ray<S, D>) -> (S, S, S) {
        let m = difference_of(ray.origin@, self.spec_start()@);
        let d = ray.dir@;
        let pm = self.along_axis(m);
        let pd = self.along_axis(d);
        let a = norm_squared(difference_of(d, pd));
        let b = dot(pm, pd).sum(dot(m, d)).difference(doubled(dot(d, pm)));
        let c = norm_squared(difference_of(m, pm)).difference(self.spec_radius_sq());
        (a, b, c)
    }

    /// The two distances along `ray` at which its line meets the infinite
    /// tube around the axis, the smaller first where `a` is positive;
    /// `None` where the line misses the tube.
    pub open spec fn roots(&self, ray: Ray<S, D>) -> Option<(S, S)> {
        let (a, b, c) = self.quadratic(ray);
        match checked_root(c.fused(a.negation(), squared(b))) {
            Some(root) => Some(
                (
                    b.negation().difference(root).quotient(a),
                    b.negation().sum(root).quotient(a),
                ),
            ),
            None => None,
        }
    }

    /// The tangent to the cylinder at distance `t` along `ray`, where `t`
    /// is one of the [`Cylinder::roots`]: the normal there points away from
    /// the axis. `None` where the point lies beyond either end of the axis.
    pub open spec fn tangent_at(&self, ray: Ray<S, D>, t: S) -> Option<(S, Vector<S, D>)> {
        let hit = ray.point_at(t);
        let coord = self.axis_coordinate(difference_of(hit, self.spec_start()@));
        if S::zero_value().at_most(coord) && coord.at_most(S::one_value()) {
            let on_axis = sum_of(self.spec_start()@, scaled(self.spec_segment_dist()@, coord));
            Some((t, vector_of(unscaled(difference_of(hit, on_axis), self.spec_radius()))))
        } else {
            None
        }
    }

    /// The tangents to the cylinder along the line of `ray`: at most two,
    /// each a distance and the normal at that distance.
    pub open spec fn tangents_at(&self, ray: Ray<S, D>) -> Seq<(S, Vector<S, D>)> {
        match self.roots(ray) {
            Some((t1, t2)) => present(self.tangent_at(ray, t1)) + present(self.tangent_at(ray, t2)),
            None => Seq::empty(),
        }
    }

    /// The cylinder around the segment from `segment_start` to `segment_end`,
    /// unless the radius is degenerate: its magnitude must be above zero.
    pub fn new(segment_start: Vector<S, D>, segment_end: Vector<S, D>, radius: S) -> (r: Option<
        Self,
    >)
        ensures
            r == Self::checked(segment_start, segment_end, radius),
            r.is_some() <==> S::zero_value().below(radius.magnitude()),
            r matches Some(c) ==> {
                &&& c.spec_start() == segment_start
                &&& c.spec_segment_dist()@ == difference_of(segment_end@, segment_start@)
                &&& c.spec_inv_norm_dist_squared() == reciprocal(
                    norm_squared(difference_of(segment_end@, segment_start@)),
                )
                &&& c.spec_radius() == radius.magnitude()
                &&& c.spec_radius_sq() == radius.product(radius)
            },
    {
        let abs = radius.abs();
        if !S::zero().lt(abs) {
            return None;
        }
        let dist = segment_end.sub(&segment_start);
        let dist_sq = dist.norm_squared();
        proof {
            lemma_vector_of_view(dist);
        }
        Some(
            Cylinder {
                start: segment_start,
                dist,
                inv_norm_dist_squared: recip(dist_sq),
                radius: abs,
                radius_sq: radius.mul(radius),
            },
        )
    }

    /// The first end of the axis.
    pub fn start(&self) -> (r: &Vector<S, D>)
        ensures
            *r == self.spec_start(),
    {
        &self.start
    }

    /// The vector from the first end of the axis to the second.
    pub fn segment_dist(&self) -> (r: &Vector<S, D>)
        ensures
            *r == self.spec_segment_dist(),
    {
        &self.dist
    }

    /// The two ends of the axis.
    pub fn line_segment(&self) -> (r: [Vector<S, D>; 2])
        ensures
            r[0] == self.spec_start(),
            r[1]@ == sum_of(self.spec_start()@, self.spec_segment_dist()@),
    {
        [self.start, self.start.add(&self.dist)]
    }

    /// The radius.
    pub fn radius(&self) -> (r: &S)
        ensures
            *r == self.spec_radius(),
    {
        &self.radius
    }

    /// Replaces the radius by the magnitude of `radius`.
    pub fn set_radius(&mut self, radius: S)
        ensures
            final(self).spec_radius() == radius.magnitude(),
            final(self).spec_radius_sq() == radius.product(radius),
            final(self).spec_start() == old(self).spec_start(),
            final(self).spec_segment_dist() == old(self).spec_segment_dist(),
            final(self).spec_inv_norm_dist_squared() == old(self).spec_inv_norm_dist_squared(),
    {
        self.radius = radius.abs();
        self.radius_sq = radius.mul(radius);
    }
}

impl<S: Scalar, const D: usize> Cylinder<S, D> {
    fn line_coord(&self, v: &Vector<S, D>) -> (r: S)
        ensures
            r == self.axis_coordinate(v@),
    {
        self.dist.dot(v).mul(self.inv_norm_dist_squared)
    }

    fn project_on_axis(&self, v: &Vector<S, D>) -> (r: Vector<S, D>)
        ensures
            r@ == self.along_axis(v@),
    {
        self.dist.scale(self.line_coord(v))
    }

    fn tangent_at_distance(&self, ray: &Ray<S, D>, t: S) -> (r: Option<(S, Vector<S, D>)>)
        ensures
            r == self.tangent_at(*ray, t),
    {
        let hit = ray.at(t);
        let coord = self.line_coord(&hit.sub(&self.start));
        if S::zero().le(coord) && coord.le(S::one()) {
            let on_axis = self.start.add(&self.dist.scale(coord));
            let normal = hit.sub(&on_axis).unscale(self.radius);
            proof {
                lemma_vector_of_view(normal);
            }
            Some((t, normal))
        } else {
            None
        }
    }

    /// The distances, possibly negative, at which the line of `ray` meets
    /// the cylinder, each with the unit normal to the cylinder there,
    /// pointing outwards: none, one or two of them.
    pub fn tangents_at_intersections(&self, ray: &Ray<S, D>) -> (r: Hits<S, D>)
        ensures
            r@ == self.tangents_at(*ray),
    {
        let m = ray.origin.sub(&self.start);
        let d = &ray.dir;
        let pm = self.project_on_axis(&m);
        let pd = self.project_on_axis(d);

        let a = d.sub(&pd).norm_squared();
        let dpm = d.dot(&pm);
        let b = pm.dot(&pd).add(m.dot(d)).sub(dpm.add(dpm));
        let c = m.sub(&pm).norm_squared().sub(self.radius_sq);

        let delta = c.mul_add(a.neg(), b.mul(b));

        match try_sqrt(delta) {
            Some(root) => {
                let neg_b = b.neg();
                let t1 = neg_b.sub(root).div(a);
                let t2 = neg_b.add(root).div(a);
                Hits::of(self.tangent_at_distance(ray, t1), self.tangent_at_distance(ray, t2))
            },
            None => Hits::none(),
        }
    }
}

impl<S: Scalar, const D: usize> Mirror<S, D> for Cylinder<S, D> {
    open spec fn tangents(&self, ray: Ray<S, D>) -> Seq<Tangent<S, D>> {
        as_tangents(self.tangents_at(ray))
    }

    fn add_tangents(&self, ctx: &mut SimulationCtx<'_, S, D>) {
        let found = self.tangents_at_intersections(ctx.ray());
        ctx.add_normals(&found.to_vec());
    }
}

impl<S: Scalar, const D: usize> PartialEq for Cylinder<S, D> {
    fn eq(&self, other: &Self) -> (r: bool) {
        self.start == other.start && self.dist == other.dist && same(
            self.inv_norm_dist_squared,
            other.inv_norm_dist_squared,
        ) && same(self.radius, other.radius) && same(self.radius_sq, other.radius_sq)
    }
}

impl<S: Scalar, const D: usize> PartialEqSpecImpl for Cylinder<S, D> {
    open spec fn obeys_eq_spec() -> bool {
        true
    }

    open spec fn eq_spec(&self, other: &Self) -> bool {
        &&& equal_coordinates(self.spec_start()@, other.spec_start()@)
        &&& equal_coordinates(self.spec_segment_dist()@, other.spec_segment_dist()@)
        &&& equal(self.spec_inv_norm_dist_squared(), other.spec_inv_norm_dist_squared())
        &&& equal(self.spec_radius(), other.spec_radius())
        &&& equal(self.spec_radius_sq(), other.spec_radius_sq())
    }
}

} // verus!
