//! Simplexes: line segments in the plane, triangles in space.
//!
//! A ray meets a simplex where it meets the hyperplane of the simplex at a
//! point whose coordinates along the edges that leave the first vertex are
//! all at least zero and add up to at most one.

use crate::ctx::{lemma_selected_push, SimulationCtx, Tangent};
use crate::hyperplane::{
    intersection_coordinates_of, is_free, orthonormal_twin, Hyperplane, HyperplaneBasis,
    HyperplaneBasisOrtho,
};
use crate::equal::equal_families;
use crate::linalg::LinearAlgebra;
use crate::mirror::Mirror;
use crate::ray::Ray;
use crate::scalar::Scalar;
use crate::vector::{
    array_of, difference_of, lemma_array_of, lemma_vector_of_view, sum_of, vector_of, Vector,
};
use vstd::prelude::*;
use vstd::std_specs::cmp::PartialEqSpecImpl;

verus! {

broadcast use vstd::array::group_array_axioms;

/// The first of `points`, then the vectors from it to each of the others.
pub open spec fn edges<S: Scalar, const D: usize>(points: [Vector<S, D>; D]) -> [Vector<S, D>; D] {
    array_of(
        Seq::new(
            D as nat,
            |i: int|
                if i == 0 {
                    points[0]
                } else {
                    vector_of(difference_of(points[i]@, points[0]@))
                },
        ),
    )
}

/// The first of `vectors`, then each of the others moved by it: what
/// [`edges`] was made from.
pub open spec fn corners<S: Scalar, const D: usize>(vectors: [Vector<S, D>; D]) -> [Vector<
    S,
    D,
>; D] {
    array_of(
        Seq::new(
            D as nat,
            |i: int|
                if i == 0 {
                    vectors[0]
                } else {
                    vector_of(sum_of(vectors[i]@, vectors[0]@))
                },
        ),
    )
}

/// The coordinates of `coords` from index 1 to index `n - 1`, added up from zero.
pub open spec fn footprint_sum<S: Scalar>(coords: Seq<S>, n: nat) -> S
    decreases n,
{
    if n <= 1 {
        S::zero_value()
    } else {
        footprint_sum(coords, (n - 1) as nat).sum(coords[n - 1])
    }
}

/// Whether the point of coordinates `coords[1..]` along the edges is in the
/// simplex: every coordinate is at least zero, and their sum at most one.
pub open spec fn in_simplex<S: Scalar>(coords: Seq<S>) -> bool {
    &&& forall|i: int| 1 <= i < coords.len() ==> S::zero_value().at_most(#[trigger] coords[i])
    &&& footprint_sum(coords, coords.len()).at_most(S::one_value())
}

/// The distance `coords[0]` if the point that goes with it is in the simplex.
pub open spec fn simplex_distance<S: Scalar>(coords: Option<Seq<S>>) -> Option<S> {
    match coords {
        Some(c) => if in_simplex(c) {
            Some(c[0])
        } else {
            None
        },
        None => None,
    }
}

/// The distance at which a ray meets a simplex, from the coordinates
/// `[t, m_1, ..]` of the point where it meets the hyperplane of the simplex:
/// `t`, if the point is in the simplex.
pub fn footprint_distance<S: Scalar, const D: usize>(coords: &Vector<S, D>) -> (r: Option<S>)
    requires
        D >= 1,
    ensures
        r == simplex_distance(Some(coords@)),
{
    let mut sum = S::zero();
    let mut i: usize = 1;
    while i < D
        invariant
            1 <= i <= D,
            sum == footprint_sum(coords@, i as nat),
            forall|k: int| 1 <= k < i ==> S::zero_value().at_most(#[trigger] coords@[k]),
        decreases D - i,
    {
        let coord = coords.get(i);
        if !S::zero().le(coord) {
            return None;
        }
        sum = sum.add(coord);
        i += 1;
    }
    if sum.le(S::one()) {
        Some(coords.get(0))
    } else {
        None
    }
}

/// A simplex of dimension `D - 1` in `D`-dimensional space: the hull of `D`
/// points.
#[derive(Debug)]
pub struct Simplex<S, const D: usize> {
    plane: HyperplaneBasis<S, D>,
    orthonormalised: HyperplaneBasisOrtho<S, D>,
}

impl<S: Copy, const D: usize> Clone for Simplex<S, D> {
    fn clone(&self) -> (r: Self)
        ensures
            r == *self,
    {
        *self
    }
}

impl<S: Copy, const D: usize> Copy for Simplex<S, D> {

}

/// A simplex of space.
pub type Triangle<S> = Simplex<S, 3>;

/// A simplex of the plane.
pub type LineSegment<S> = Simplex<S, 2>;

impl<S, const D: usize> Simplex<S, D> {
    /// The first vertex, then the edges that leave it.
    pub closed spec fn spec_plane(&self) -> HyperplaneBasis<S, D> {
        self.plane
    }

    /// The first vertex, then an orthonormal family that spans the same
    /// directions as the edges.
    pub closed spec fn spec_ortho(&self) -> HyperplaneBasisOrtho<S, D> {
        self.orthonormalised
    }

    /// The simplex made of a spanning family and its orthonormalised twin.
    pub closed spec fn of(plane: HyperplaneBasis<S, D>, ortho: HyperplaneBasisOrtho<S, D>) -> Self {
        Simplex { plane, orthonormalised: ortho }
    }

    /// What a simplex is made of is what it holds.
    pub proof fn lemma_of(plane: HyperplaneBasis<S, D>, ortho: HyperplaneBasisOrtho<S, D>)
        ensures
            (#[trigger] Self::of(plane, ortho)).spec_plane() == plane,
            Self::of(plane, ortho).spec_ortho() == ortho,
    {
    }

    /// A simplex is made of its two families.
    pub proof fn lemma_ext(&self)
        ensures
            *self == Self::of(self.spec_plane(), self.spec_ortho()),
    {
    }
}

impl<S: LinearAlgebra, const D: usize> Simplex<S, D> {
    /// The distance at which `ray` meets the simplex, if it does.
    pub open spec fn distance_along(&self, ray: Ray<S, D>) -> Option<S> {
        let vectors = self.spec_plane().spec_vectors();
        simplex_distance(intersection_coordinates_of(vectors, ray.origin@, ray.dir, vectors[0]@))
    }

    /// Whether `points` span a simplex: whether the edges that leave the
    /// first of them are a free family.
    pub open spec fn spans(points: [Vector<S, D>; D]) -> bool {
        is_free(edges(points))
    }

    /// The simplex whose vertices are `points`, if they span one.
    pub open spec fn checked(points: [Vector<S, D>; D]) -> Option<Self> {
        if Self::spans(points) {
            Some(
                Self::of(
                    HyperplaneBasis::of(edges(points)),
                    HyperplaneBasisOrtho::of(orthonormal_twin(edges(points))),
                ),
            )
        } else {
            None
        }
    }

    /// The simplex whose vertices are `points`, or `None` if they do not
    /// span one.
    pub fn try_new(points: [Vector<S, D>; D]) -> (r: Option<Self>)
        requires
            D >= 1,
        ensures
            r == Self::checked(points),
            r.is_some() <==> Self::spans(points),
            r matches Some(s) ==> {
                &&& s.spec_plane().spec_vectors() == edges(points)
                &&& s.spec_ortho().spec_vectors() == orthonormal_twin(edges(points))
                &&& s.spec_ortho().spec_vectors()[0] == points[0]
            },
    {
        let v0 = points[0];
        let mut vectors = points;
        let mut i: usize = 1;
        while i < D
            invariant
                1 <= i <= D,
                v0 == points[0],
                vectors@[0] == points[0],
                forall|k: int| 1 <= k < i ==> (#[trigger] vectors@[k])@ == difference_of(points[k]@, v0@),
                forall|k: int| i <= k < D ==> #[trigger] vectors@[k] == points[k],
            decreases D - i,
        {
            let edge = vectors[i].sub(&v0);
            vectors[i] = edge;
            i += 1;
        }
        proof {
            assert forall|k: int| 0 <= k < D implies vectors@[k] == edges(points)@[k] by {
                lemma_array_of::<Vector<S, D>, D>(
                    Seq::new(
                        D as nat,
                        |i: int|
                            if i == 0 {
                                points[0]
                            } else {
                                vector_of(difference_of(points[i]@, points[0]@))
                            },
                    ),
                );
                if k > 0 {
                    lemma_vector_of_view(vectors@[k]);
                }
            }
            assert(vectors =~= edges(points));
        }
        match HyperplaneBasis::try_new(vectors) {
            Some((plane, orthonormalised)) => {
                proof {
                    plane.lemma_ext();
                    orthonormalised.lemma_ext();
                }
                Some(Simplex { plane, orthonormalised })
            },
            None => None,
        }
    }

    /// The simplex whose vertices are `points`, which must span one.
    pub fn new(points: [Vector<S, D>; D]) -> (r: Self)
        requires
            D >= 1,
            Self::spans(points),
        ensures
            r.spec_plane().spec_vectors() == edges(points),
            r.spec_ortho().spec_vectors() == orthonormal_twin(edges(points)),
            r.spec_ortho().spec_vectors()[0] == points[0],
    {
        Self::try_new(points).unwrap()
    }

    /// The distance at which `ray` meets the simplex, if it does.
    pub fn intersection(&self, ray: &Ray<S, D>) -> (r: Option<S>)
        requires
            D >= 1,
        ensures
            r == self.distance_along(*ray),
    {
        let p = &self.plane;
        match p.intersection_coordinates(ray, p.v0()) {
            Some(coords) => footprint_distance(&coords),
            None => None,
        }
    }
}

impl<S: Scalar, const D: usize> Simplex<S, D> {
    /// The first vertex, then the edges that leave it.
    pub fn inner_plane(&self) -> (r: &HyperplaneBasis<S, D>)
        ensures
            *r == self.spec_plane(),
    {
        &self.plane
    }

    /// The first vertex, then the edges that leave it, for the first
    /// vertex to be changed in place: this moves the whole simplex.
    pub fn inner_plane_mut(&mut self) -> (r: &mut HyperplaneBasis<S, D>)
        ensures
            *r == old(self).spec_plane(),
            final(self).spec_plane() == *final(r),
            final(self).spec_ortho() == old(self).spec_ortho(),
    {
        &mut self.plane
    }

    /// The first vertex, then an orthonormal family that spans the same
    /// directions as the edges.
    pub fn inner_plane_ortho(&self) -> (r: &HyperplaneBasisOrtho<S, D>)
        ensures
            *r == self.spec_ortho(),
    {
        &self.orthonormalised
    }

    /// The vertices of the simplex.
    pub fn vertices(&self) -> (r: [Vector<S, D>; D])
        requires
            D >= 1,
        ensures
            r == corners(self.spec_plane().spec_vectors()),
    {
        let raw = self.plane.vectors_raw();
        let v0 = raw[0];
        let mut vertices = *raw;
        let mut i: usize = 1;
        while i < D
            invariant
                1 <= i <= D,
                *raw == self.spec_plane().spec_vectors(),
                v0 == raw@[0],
                vertices@[0] == raw@[0],
                forall|k: int| 1 <= k < i ==> (#[trigger] vertices@[k])@ == sum_of(raw@[k]@, v0@),
                forall|k: int| i <= k < D ==> #[trigger] vertices@[k] == raw@[k],
            decreases D - i,
        {
            let vertex = vertices[i].add(&v0);
            vertices[i] = vertex;
            i += 1;
        }
        proof {
            let vectors = self.spec_plane().spec_vectors();
            assert forall|k: int| 0 <= k < D implies vertices@[k] == corners(vectors)@[k] by {
                lemma_array_of::<Vector<S, D>, D>(
                    Seq::new(
                        D as nat,
                        |i: int|
                            if i == 0 {
                                vectors[0]
                            } else {
                                vector_of(sum_of(vectors[i]@, vectors[0]@))
                            },
                    ),
                );
                if k > 0 {
                    lemma_vector_of_view(vertices@[k]);
                }
            }
            assert(vertices =~= corners(vectors));
        }
        vertices
    }
}

impl<S: LinearAlgebra, const D: usize> Mirror<S, D> for Simplex<S, D> {
    open spec fn tangents(&self, ray: Ray<S, D>) -> Seq<Tangent<S, D>> {
        match self.distance_along(ray) {
            Some(dist) => seq![(dist, Hyperplane::Plane(self.spec_ortho()))],
            None => Seq::empty(),
        }
    }

    fn add_tangents(&self, ctx: &mut SimulationCtx<'_, S, D>) {
        if let Some(dist) = self.intersection(ctx.ray()) {
            proof {
                lemma_selected_push(
                    ctx.eps(),
                    ctx.best(),
                    Seq::empty(),
                    (dist, Hyperplane::Plane(self.spec_ortho())),
                );
                assert(Seq::<Tangent<S, D>>::empty().push(
                    (dist, Hyperplane::Plane(self.spec_ortho())),
                ) =~= seq![(dist, Hyperplane::Plane(self.spec_ortho()))]);
            }
            ctx.add_tangent(dist, Hyperplane::Plane(self.orthonormalised));
        }
    }
}

impl<S: Scalar, const D: usize> PartialEq for Simplex<S, D> {
    fn eq(&self, other: &Self) -> (r: bool) {
        self.plane == other.plane && self.orthonormalised == other.orthonormalised
    }
}

impl<S: Scalar, const D: usize> PartialEqSpecImpl for Simplex<S, D> {
    open spec fn obeys_eq_spec() -> bool {
        true
    }

    open spec fn eq_spec(&self, other: &Self) -> bool {
        &&& equal_families(
            self.spec_plane().spec_vectors()@,
            other.spec_plane().spec_vectors()@,
        )
        &&& equal_families(
            self.spec_ortho().spec_vectors()@,
            other.spec_ortho().spec_vectors()@,
        )
    }
}

} // verus!
