//! Parallelotopes: line segments in the plane, parallelograms in space.
//!
//! A plane mirror is given by its centre and `D - 1` vectors from the centre
//! to the middles of its sides. A ray meets it where it meets its hyperplane
//! at a point whose coordinates along these vectors are all strictly between
//! minus one and one.

use crate::ctx::{lemma_selected_push, SimulationCtx, Tangent};
use crate::hyperplane::{
    intersection_coordinates_of, is_free, orthonormal_twin, Hyperplane, HyperplaneBasis,
    HyperplaneBasisOrtho,
};
use crate::equal::equal_families;
use crate::linalg::LinearAlgebra;
use crate::mirror::Mirror;
use crate::ray::Ray;
use crate::scalar::Scalar;
use crate::vector::{difference_of, sum_of, Vector};
use vstd::prelude::*;
use vstd::std_specs::cmp::PartialEqSpecImpl;

verus! {

broadcast use vstd::array::group_array_axioms;

/// Whether the point of coordinates `coords[1..]` along the spanning vectors
/// is in the parallelotope: every coordinate is of magnitude below one.
pub open spec fn in_parallelotope<S: Scalar>(coords: Seq<S>) -> bool {
    forall|i: int| 1 <= i < coords.len() ==> (#[trigger] coords[i]).magnitude().below(S::one_value())
}

/// The distance `coords[0]` if the point that goes with it is in the parallelotope.
pub open spec fn parallelotope_distance<S: Scalar>(coords: Option<Seq<S>>) -> Option<S> {
    match coords {
        Some(c) => if in_parallelotope(c) {
            Some(c[0])
        } else {
            None
        },
        None => None,
    }
}

/// The distance at which a ray meets a plane mirror, from the coordinates
/// `[t, m_1, ..]` of the point where it meets the hyperplane of the mirror:
/// `t`, if the point is in the parallelotope.
pub fn inside_distance<S: Scalar, const D: usize>(coords: &Vector<S, D>) -> (r: Option<S>)
    requires
        D >= 1,
    ensures
        r == parallelotope_distance(Some(coords@)),
{
    let mut i: usize = 1;
    while i < D
        invariant
            1 <= i <= D,
            forall|k: int| 1 <= k < i ==> (#[trigger] coords@[k]).magnitude().below(S::one_value()),
        decreases D - i,
    {
        if !coords.get(i).abs().lt(S::one()) {
            return None;
        }
        i += 1;
    }
    Some(coords.get(0))
}

/// Whether corner `i` lies on the far side of the centre along spanning
/// vector `j`, counted from zero: whether bit `j` of `i` is set.
pub open spec fn is_far_side(i: usize, j: usize) -> bool {
    (i >> j) & 1 == 1
}

/// The sum, from the zero vector, of those among the first `n` spanning
/// vectors along which corner `i` lies on the far side of the centre, if
/// `far`, or on the near side, if not.
pub open spec fn side_sum<S: Scalar, const D: usize>(
    vectors: Seq<Vector<S, D>>,
    i: usize,
    far: bool,
    n: nat,
) -> Seq<S>
    decreases n,
{
    if n == 0 {
        Seq::new(D as nat, |k: int| S::zero_value())
    } else {
        let before = side_sum(vectors, i, far, (n - 1) as nat);
        if is_far_side(i, (n - 1) as usize) == far {
            sum_of(before, vectors[n as int]@)
        } else {
            before
        }
    }
}

/// Corner `i` of the parallelotope: the centre, plus the spanning vectors on
/// its near side, minus those on its far side.
pub open spec fn corner<S: Scalar, const D: usize>(vectors: Seq<Vector<S, D>>, i: usize) -> Seq<S> {
    difference_of(
        sum_of(vectors[0]@, side_sum(vectors, i, false, (D - 1) as nat)),
        side_sum(vectors, i, true, (D - 1) as nat),
    )
}

/// A parallelotope-shaped mirror.
#[derive(Debug)]
pub struct PlaneMirror<S, const D: usize> {
    plane: HyperplaneBasis<S, D>,
    orthonormalised: HyperplaneBasisOrtho<S, D>,
}

impl<S: Copy, const D: usize> Clone for PlaneMirror<S, D> {
    fn clone(&self) -> (r: Self)
        ensures
            r == *self,
    {
        *self
    }
}

impl<S: Copy, const D: usize> Copy for PlaneMirror<S, D> {

}

impl<S, const D: usize> PlaneMirror<S, D> {
    /// The centre, then the spanning vectors.
    pub closed spec fn spec_plane(&self) -> HyperplaneBasis<S, D> {
        self.plane
    }

    /// The centre, then an orthonormal family that spans the same
    /// directions as the spanning vectors.
    pub closed spec fn spec_ortho(&self) -> HyperplaneBasisOrtho<S, D> {
        self.orthonormalised
    }

    /// The mirror made of a spanning family and its orthonormalised twin.
    pub closed spec fn of(plane: HyperplaneBasis<S, D>, ortho: HyperplaneBasisOrtho<S, D>) -> Self {
        PlaneMirror { plane, orthonormalised: ortho }
    }

    /// What a mirror is made of is what it holds.
    pub proof fn lemma_of(plane: HyperplaneBasis<S, D>, ortho: HyperplaneBasisOrtho<S, D>)
        ensures
            (#[trigger] Self::of(plane, ortho)).spec_plane() == plane,
            Self::of(plane, ortho).spec_ortho() == ortho,
    {
    }

    /// A mirror is made of its two families.
    pub proof fn lemma_ext(&self)
        ensures
            *self == Self::of(self.spec_plane(), self.spec_ortho()),
    {
    }
}

impl<S: LinearAlgebra, const D: usize> PlaneMirror<S, D> {
    /// The mirror of centre `vectors[0]` spanned by the other vectors, if
    /// these are a free family.
    pub open spec fn checked(vectors: [Vector<S, D>; D]) -> Option<Self> {
        if is_free(vectors) {
            Some(
                Self::of(
                    HyperplaneBasis::of(vectors),
                    HyperplaneBasisOrtho::of(orthonormal_twin(vectors)),
                ),
            )
        } else {
            None
        }
    }

    /// The distance at which `ray` meets the mirror, if it does.
    pub open spec fn distance_along(&self, ray: Ray<S, D>) -> Option<S> {
        let vectors = self.spec_plane().spec_vectors();
        parallelotope_distance(
            intersection_coordinates_of(vectors, ray.origin@, ray.dir, vectors[0]@),
        )
    }

    /// The mirror of centre `vectors[0]` spanned by the other vectors, or
    /// `None` if these are not a free family.
    pub fn try_new(vectors: [Vector<S, D>; D]) -> (r: Option<Self>)
        requires
            D >= 1,
        ensures
            r == Self::checked(vectors),
            r.is_some() <==> is_free(vectors),
            r matches Some(m) ==> {
                &&& m.spec_plane().spec_vectors() == vectors
                &&& m.spec_ortho().spec_vectors() == orthonormal_twin(vectors)
                &&& m.spec_ortho().spec_vectors()[0] == vectors[0]
            },
    {
        match HyperplaneBasis::try_new(vectors) {
            Some((plane, orthonormalised)) => {
                proof {
                    plane.lemma_ext();
                    orthonormalised.lemma_ext();
                }
                Some(PlaneMirror { plane, orthonormalised })
            },
            None => None,
        }
    }

    /// The distance at which `ray` meets the mirror, if it does.
    pub fn intersection(&self, ray: &Ray<S, D>) -> (r: Option<S>)
        requires
            D >= 1,
        ensures
            r == self.distance_along(*ray),
    {
        let p = &self.plane;
        match p.intersection_coordinates(ray, p.v0()) {
            Some(coords) => inside_distance(&coords),
            None => None,
        }
    }
}

impl<S: Scalar, const D: usize> PlaneMirror<S, D> {
    /// The centre, then the spanning vectors.
    pub fn inner_plane(&self) -> (r: &HyperplaneBasis<S, D>)
        ensures
            *r == self.spec_plane(),
    {
        &self.plane
    }

    fn side_sum_of(&self, i: usize, far: bool) -> (r: Vector<S, D>)
        requires
            1 <= D <= usize::BITS,
        ensures
            r@ == side_sum(self.spec_plane().spec_vectors()@, i, far, (D - 1) as nat),
    {
        let raw = self.plane.vectors_raw();
        let mut acc: Vector<S, D> = Vector::zeros();
        let mut j: usize = 0;
        while j < D - 1
            invariant
                1 <= D <= usize::BITS,
                j <= D - 1,
                *raw == self.spec_plane().spec_vectors(),
                acc@ == side_sum(raw@, i, far, j as nat),
            decreases D - 1 - j,
        {
            if ((i >> j) & 1 == 1) == far {
                acc = acc.add(&raw[j + 1]);
            }
            j += 1;
        }
        acc
    }

    /// The `2^(D - 1)` corners of the mirror.
    pub fn vertices(&self) -> (r: Vec<Vector<S, D>>)
        requires
            1 <= D <= usize::BITS,
        ensures
            r@.len() == 1usize << ((D - 1) as usize),
            forall|i: int|
                0 <= i < r@.len() ==> (#[trigger] r@[i])@ == corner(
                    self.spec_plane().spec_vectors()@,
                    i as usize,
                ),
    {
        let count: usize = 1usize << (D - 1);
        let v0 = *self.plane.v0();
        let mut out: Vec<Vector<S, D>> = Vec::new();
        let mut i: usize = 0;
        while i < count
            invariant
                1 <= D <= usize::BITS,
                i <= count,
                v0 == self.spec_plane().spec_vectors()[0],
                out@.len() == i,
                forall|k: int|
                    0 <= k < i ==> (#[trigger] out@[k])@ == corner(
                        self.spec_plane().spec_vectors()@,
                        k as usize,
                    ),
            decreases count - i,
        {
            let plus = self.side_sum_of(i, false);
            let minus = self.side_sum_of(i, true);
            out.push(v0.add(&plus).sub(&minus));
            i += 1;
        }
        out
    }
}

impl<S: LinearAlgebra, const D: usize> Mirror<S, D> for PlaneMirror<S, D> {
    open spec fn tangents(&self, ray: Ray<S, D>) -> Seq<Tangent<S, D>> {
        match self.distance_along(ray) {
            Some(dist) => seq![(dist, Hyperplane::Plane(self.spec_ortho()))],
            None => Seq::empty(),
        }
    }

    fn add_tangents(&self, ctx: &mut SimulationCtx<'_, S, D>) {
        if let Some(dist) = self.intersection(ctx.ray()) {
            proof {
                lemma_selected_push(
                    ctx.eps(),
                    ctx.best(),
                    Seq::empty(),
                    (dist, Hyperplane::Plane(self.spec_ortho())),
                );
                assert(Seq::<Tangent<S, D>>::empty().push(
                    (dist, Hyperplane::Plane(self.spec_ortho())),
                ) =~= seq![(dist, Hyperplane::Plane(self.spec_ortho()))]);
            }
            ctx.add_tangent(dist, Hyperplane::Plane(self.orthonormalised));
        }
    }
}

impl<S: Scalar, const D: usize> PartialEq for PlaneMirror<S, D> {
    fn eq(&self, other: &Self) -> (r: bool) {
        self.plane == other.plane && self.orthonormalised == other.orthonormalised
    }
}

impl<S: Scalar, const D: usize> PartialEqSpecImpl for PlaneMirror<S, D> {
    open spec fn obeys_eq_spec() -> bool {
        true
    }

    open spec fn eq_spec(&self, other: &Self) -> bool {
        &&& equal_families(
            self.spec_plane().spec_vectors()@,
            other.spec_plane().spec_vectors()@,
        )
        &&& equal_families(
            self.spec_ortho().spec_vectors()@,
            other.spec_ortho().spec_vectors()@,
        )
    }
}

} // verus!
