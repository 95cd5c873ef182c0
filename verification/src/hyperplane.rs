//! Hyperplanes: the directions tangent to a mirror where a ray meets it, and
//! the reflection of a direction across them.

use crate::equal::{equal_coordinates, equal_families, same_family};
use crate::linalg::{mat_vec, matrix_times, LinearAlgebra};
use crate::ray::Ray;
use crate::scalar::Scalar;
use crate::vector::{
    array_of, difference_of, dot, lemma_array_of_view, normalized, scaled, sum_of, Vector,
};
use vstd::prelude::*;
use vstd::std_specs::cmp::PartialEqSpecImpl;

verus! {

broadcast use vstd::array::group_array_axioms;

/// Coordinate by coordinate `a + a`.
pub open spec fn twice<S: Scalar>(a: Seq<S>) -> Seq<S> {
    sum_of(a, a)
}

/// The sum of the projections of `v` on the vectors of `family` from
/// index 1 to index `n - 1`, added up from the zero vector.
pub open spec fn projection_prefix<S: Scalar, const D: usize>(
    family: Seq<Vector<S, D>>,
    v: Seq<S>,
    n: nat,
) -> Seq<S>
    decreases n,
{
    if n <= 1 {
        Seq::new(D as nat, |i: int| S::zero_value())
    } else {
        sum_of(
            projection_prefix(family, v, (n - 1) as nat),
            scaled(family[n - 1]@, dot(v, family[n - 1]@)),
        )
    }
}

/// The orthogonal projection of `v` on the span of the vectors of `family`
/// after the first, where these are orthonormal.
pub open spec fn projection<S: Scalar, const D: usize>(
    family: Seq<Vector<S, D>>,
    v: Seq<S>,
) -> Seq<S> {
    projection_prefix(family, v, D as nat)
}

/// The mirror image of `v` across the span of the vectors of `family` after
/// the first: twice its projection, minus `v`.
pub open spec fn reflected_across_plane<S: Scalar, const D: usize>(
    family: Seq<Vector<S, D>>,
    v: Seq<S>,
) -> Seq<S> {
    difference_of(twice(projection(family, v)), v)
}

/// The mirror image of `v` across the hyperplane of normal `n`:
/// `v - 2 (v . n) n`.
pub open spec fn reflected_across_normal<S: Scalar>(n: Seq<S>, v: Seq<S>) -> Seq<S> {
    difference_of(v, twice(scaled(n, dot(v, n))))
}

/// The matrix of the linear system that intersects a ray of direction `dir`
/// with a flat region: `dir`, then the region's spanning family.
pub open spec fn system<S, const D: usize>(vectors: [Vector<S, D>; D], dir: Vector<S, D>) -> [Vector<
    S,
    D,
>; D] {
    vstd::array::spec_array_update(vectors, 0, dir)
}

/// The coordinates `[t, m_1, ..]` of the point where the line through
/// `origin` of direction `dir` meets the affine hyperplane through `v0`
/// spanned by the vectors of `vectors` after the first: the point is
/// `origin + t dir`, and `v0 + m_1 vectors[1] + ..`. `None` where the matrix
/// of the system has no inverse: the line is parallel to the hyperplane.
pub open spec fn intersection_coordinates_of<S: LinearAlgebra, const D: usize>(
    vectors: [Vector<S, D>; D],
    origin: Seq<S>,
    dir: Vector<S, D>,
    v0: Seq<S>,
) -> Option<Seq<S>> {
    match S::inverse(system(vectors, dir)) {
        Some(inv) => {
            let v = matrix_times(inv@, difference_of(origin, v0));
            Some(v.update(0, v[0].negation()))
        },
        None => None,
    }
}

/// The vectors of `vectors` after the first.
pub open spec fn tail_of<S, const D: usize>(vectors: &[Vector<S, D>; D]) -> &[Vector<S, D>] {
    choose|tail: &[Vector<S, D>]| tail@ == vectors@.subrange(1, D as int)
}

/// Whether the vectors of `vectors` after the first are a free family:
/// whether orthonormalising them finds `D - 1` independent vectors.
pub open spec fn is_free<S: LinearAlgebra, const D: usize>(vectors: [Vector<S, D>; D]) -> bool {
    S::orthonormalized(tail_of(&vectors)).1 == D - 1
}

/// The first of `vectors`, then what orthonormalising the others gives.
pub open spec fn orthonormal_twin<S: LinearAlgebra, const D: usize>(
    vectors: [Vector<S, D>; D],
) -> [Vector<S, D>; D] {
    array_of(seq![vectors[0]] + S::orthonormalized(tail_of(&vectors)).0@)
}

/// A hyperplane given by `D - 1` vectors that span it, stored after a first
/// vector that the hyperplane does not depend on (an anchor point, for the
/// shapes that need one).
#[derive(Debug)]
pub struct HyperplaneBasis<S, const D: usize> {
    vectors: [Vector<S, D>; D],
}

impl<S: Copy, const D: usize> Clone for HyperplaneBasis<S, D> {
    fn clone(&self) -> (r: Self)
        ensures
            r == *self,
    {
        *self
    }
}

impl<S: Copy, const D: usize> Copy for HyperplaneBasis<S, D> {

}

/// A hyperplane like [`HyperplaneBasis`], whose spanning family came out of
/// an orthonormalisation.
#[derive(Debug)]
pub struct HyperplaneBasisOrtho<S, const D: usize> {
    plane: HyperplaneBasis<S, D>,
}

impl<S: Copy, const D: usize> Clone for HyperplaneBasisOrtho<S, D> {
    fn clone(&self) -> (r: Self)
        ensures
            r == *self,
    {
        *self
    }
}

impl<S: Copy, const D: usize> Copy for HyperplaneBasisOrtho<S, D> {

}

impl<S, const D: usize> HyperplaneBasis<S, D> {
    /// The anchor, then the spanning family.
    pub closed spec fn spec_vectors(&self) -> [Vector<S, D>; D] {
        self.vectors
    }

    /// The hyperplane made of `vectors`.
    pub closed spec fn of(vectors: [Vector<S, D>; D]) -> Self {
        HyperplaneBasis { vectors }
    }

    /// What a hyperplane is made of is what it holds.
    pub proof fn lemma_of(vectors: [Vector<S, D>; D])
        ensures
            #[trigger] Self::of(vectors).spec_vectors() == vectors,
    {
    }

    /// A hyperplane is made of its vectors.
    pub proof fn lemma_ext(&self)
        ensures
            *self == Self::of(self.spec_vectors()),
    {
    }
}

impl<S, const D: usize> HyperplaneBasisOrtho<S, D> {
    /// The anchor, then the orthonormalised spanning family.
    pub closed spec fn spec_vectors(&self) -> [Vector<S, D>; D] {
        self.plane.vectors
    }

    /// The same hyperplane, seen as a plain spanning family.
    pub closed spec fn spec_plane(&self) -> HyperplaneBasis<S, D> {
        self.plane
    }

    /// The hyperplane made of `vectors`.
    pub closed spec fn of(vectors: [Vector<S, D>; D]) -> Self {
        HyperplaneBasisOrtho { plane: HyperplaneBasis { vectors } }
    }

    /// What a hyperplane is made of is what it holds.
    pub proof fn lemma_of(vectors: [Vector<S, D>; D])
        ensures
            #[trigger] Self::of(vectors).spec_vectors() == vectors,
    {
    }

    /// A hyperplane is made of its vectors.
    pub proof fn lemma_ext(&self)
        ensures
            *self == Self::of(self.spec_vectors()),
    {
    }
}

impl<S: LinearAlgebra, const D: usize> HyperplaneBasis<S, D> {
    /// The hyperplane spanned by the vectors of `vectors` after the first,
    /// with its orthonormalised twin, or `None` if these `D - 1` vectors are
    /// not a free family. The first vector is kept in both, and otherwise
    /// ignored.
    pub fn try_new(vectors: [Vector<S, D>; D]) -> (r: Option<(Self, HyperplaneBasisOrtho<S, D>)>)
        requires
            D >= 1,
        ensures
            r.is_some() <==> is_free(vectors),
            r matches Some((plane, ortho)) ==> {
                &&& plane.spec_vectors() == vectors
                &&& ortho.spec_vectors() == orthonormal_twin(vectors)
                &&& ortho.spec_vectors()[0] == vectors[0]
            },
    {
        let tail = vstd::slice::slice_subrange(vectors.as_slice(), 1, D);
        proof {
            assert(tail =~= tail_of(&vectors));
        }
        let (family, found) = S::orthonormalize(tail);
        if found == D - 1 {
            let mut orthonormalized = vectors;
            let mut k: usize = 1;
            while k < D
                invariant
                    1 <= k <= D,
                    family@.len() == D - 1,
                    orthonormalized@[0] == vectors@[0],
                    forall|j: int| 1 <= j < k ==> #[trigger] orthonormalized@[j] == family@[j - 1],
                decreases D - k,
            {
                orthonormalized[k] = family[k - 1];
                k += 1;
            }
            proof {
                assert(orthonormalized@ =~= seq![vectors[0]] + family@);
                lemma_array_of_view(orthonormalized);
            }
            Some(
                (
                    HyperplaneBasis { vectors },
                    HyperplaneBasisOrtho { plane: HyperplaneBasis { vectors: orthonormalized } },
                ),
            )
        } else {
            None
        }
    }

    /// The coordinates `[t, m_1, ..]` of the point where the line of `ray`
    /// meets the affine hyperplane through `v0` that `self` directs, if the
    /// two are not parallel.
    pub fn intersection_coordinates(&self, ray: &Ray<S, D>, v0: &Vector<S, D>) -> (r: Option<
        Vector<S, D>,
    >)
        requires
            D >= 1,
        ensures
            r.is_some() == intersection_coordinates_of(
                self.spec_vectors(),
                ray.origin@,
                ray.dir,
                v0@,
            ).is_some(),
            r matches Some(v) ==> Some(v@) == intersection_coordinates_of(
                self.spec_vectors(),
                ray.origin@,
                ray.dir,
                v0@,
            ),
    {
        let mut a = self.vectors;
        a[0] = ray.dir;
        assert(a =~= system(self.vectors, ray.dir));
        match S::try_inverse(&a) {
            Some(inv) => {
                let mut v = mat_vec(&inv, &ray.origin.sub(v0));
                let first = v.coords[0].neg();
                v.coords[0] = first;
                Some(v)
            },
            None => None,
        }
    }
}

impl<S: Scalar, const D: usize> HyperplaneBasis<S, D> {
    /// The first vector, which the hyperplane does not depend on.
    pub fn v0(&self) -> (r: &Vector<S, D>)
        requires
            D >= 1,
        ensures
            *r == self.spec_vectors()[0],
    {
        &self.vectors[0]
    }

    /// The first vector, to be changed in place: this moves whatever is
    /// anchored at it.
    pub fn v0_mut(&mut self) -> (r: &mut Vector<S, D>)
        requires
            D >= 1,
        ensures
            *r == old(self).spec_vectors()[0],
            final(self).spec_vectors()@ == old(self).spec_vectors()@.update(0, *final(r)),
    {
        &mut self.vectors[0]
    }


    /// The `D - 1` vectors that span the hyperplane.
    pub fn basis(&self) -> (r: &[Vector<S, D>])
        requires
            D >= 1,
        ensures
            r@ == self.spec_vectors()@.subrange(1, D as int),
    {
        vstd::slice::slice_subrange(self.vectors.as_slice(), 1, D)
    }

    /// The first vector, then the spanning family.
    pub fn vectors_raw(&self) -> (r: &[Vector<S, D>; D])
        ensures
            *r == self.spec_vectors(),
    {
        &self.vectors
    }
}

impl<S: Scalar, const D: usize> HyperplaneBasisOrtho<S, D> {
    /// The same hyperplane, as a plain spanning family.
    pub fn as_basis(&self) -> (r: &HyperplaneBasis<S, D>)
        ensures
            *r == self.spec_plane(),
            r.spec_vectors() == self.spec_vectors(),
    {
        &self.plane
    }

    /// The first vector, which the hyperplane does not depend on, to be
    /// changed in place.
    pub fn v0_mut(&mut self) -> (r: &mut Vector<S, D>)
        requires
            D >= 1,
        ensures
            *r == old(self).spec_vectors()[0],
            final(self).spec_vectors()@ == old(self).spec_vectors()@.update(0, *final(r)),
    {
        self.plane.v0_mut()
    }

    /// The orthogonal projection of `v` on the hyperplane.
    pub fn project(&self, v: &Vector<S, D>) -> (r: Vector<S, D>)
        ensures
            r@ == projection(self.spec_vectors()@, v@),
    {
        let mut acc: Vector<S, D> = Vector::zeros();
        let mut k: usize = 1;
        while k < D
            invariant
                1 <= k,
                k <= D || D == 0,
                acc@ == projection_prefix(self.spec_vectors()@, v@, k as nat),
            decreases D - k,
        {
            let e = &self.plane.vectors[k];
            acc = acc.add(&e.scale(v.dot(e)));
            k += 1;
        }
        acc
    }

    /// The point of the affine hyperplane through `v0` directed by `self`
    /// that is closest to `p`.
    pub fn closest_point_to_plane(&self, v0: &Vector<S, D>, p: &Vector<S, D>) -> (r: Vector<S, D>)
        ensures
            r@ == sum_of(v0@, projection(self.spec_vectors()@, difference_of(p@, v0@))),
    {
        let v = p.sub(v0);
        v0.add(&self.project(&v))
    }
}

/// The ways of describing the hyperplane tangent to a mirror at a point.
#[derive(Debug)]
pub enum Hyperplane<S, const D: usize> {
    /// By an orthonormal family that spans it: what flat shapes hand out.
    Plane(HyperplaneBasisOrtho<S, D>),
    /// By a unit vector at right angles to it: what round shapes hand out.
    Normal(Vector<S, D>),
}

impl<S: Copy, const D: usize> Clone for Hyperplane<S, D> {
    fn clone(&self) -> (r: Self)
        ensures
            r == *self,
    {
        *self
    }
}

impl<S: Copy, const D: usize> Copy for Hyperplane<S, D> {

}

impl<S: Scalar, const D: usize> Hyperplane<S, D> {
    /// The mirror image of `v` across the hyperplane.
    pub open spec fn reflected(&self, v: Seq<S>) -> Seq<S> {
        match self {
            Hyperplane::Plane(plane) => reflected_across_plane(plane.spec_vectors()@, v),
            Hyperplane::Normal(n) => reflected_across_normal(n@, v),
        }
    }

    /// Reflects `v` across the hyperplane.
    pub fn reflect(&self, v: &Vector<S, D>) -> (r: Vector<S, D>)
        ensures
            r@ == self.reflected(v@),
    {
        match self {
            Hyperplane::Plane(plane) => {
                let p = plane.project(v);
                p.add(&p).sub(v)
            },
            Hyperplane::Normal(n) => {
                let along = n.scale(v.dot(n));
                v.sub(&along.add(&along))
            },
        }
    }

    /// Reflects the direction `v` across the hyperplane and brings the
    /// result back to norm one, which rounding may have taken it away from.
    pub fn reflect_unit(&self, v: &Vector<S, D>) -> (r: Vector<S, D>)
        ensures
            r@ == normalized(self.reflected(v@)),
    {
        self.reflect(v).normalize()
    }

    /// Reflects the direction `v` across the hyperplane, trusting that a
    /// reflection keeps the norm. It does in exact arithmetic; with rounding
    /// the norm drifts a little at every call, so prefer
    /// [`Hyperplane::reflect_unit`] on long paths.
    pub fn reflect_unit_optimised(&self, v: &Vector<S, D>) -> (r: Vector<S, D>)
        ensures
            r@ == self.reflected(v@),
    {
        self.reflect(v)
    }
}

impl<S: Scalar, const D: usize> PartialEq for HyperplaneBasis<S, D> {
    fn eq(&self, other: &Self) -> (r: bool) {
        same_family(&self.vectors, &other.vectors)
    }
}

impl<S: Scalar, const D: usize> PartialEqSpecImpl for HyperplaneBasis<S, D> {
    open spec fn obeys_eq_spec() -> bool {
        true
    }

    open spec fn eq_spec(&self, other: &Self) -> bool {
        equal_families(self.spec_vectors()@, other.spec_vectors()@)
    }
}

impl<S: Scalar, const D: usize> PartialEq for HyperplaneBasisOrtho<S, D> {
    fn eq(&self, other: &Self) -> (r: bool) {
        self.plane == other.plane
    }
}

impl<S: Scalar, const D: usize> PartialEqSpecImpl for HyperplaneBasisOrtho<S, D> {
    open spec fn obeys_eq_spec() -> bool {
        true
    }

    open spec fn eq_spec(&self, other: &Self) -> bool {
        equal_families(self.spec_vectors()@, other.spec_vectors()@)
    }
}

impl<S: Scalar, const D: usize> PartialEq for Hyperplane<S, D> {
    fn eq(&self, other: &Self) -> (r: bool) {
        match (self, other) {
            (Hyperplane::Plane(a), Hyperplane::Plane(b)) => a == b,
            (Hyperplane::Normal(a), Hyperplane::Normal(b)) => a == b,
            _ => false,
        }
    }
}

impl<S: Scalar, const D: usize> PartialEqSpecImpl for Hyperplane<S, D> {
    open spec fn obeys_eq_spec() -> bool {
        true
    }

    open spec fn eq_spec(&self, other: &Self) -> bool {
        match (self, other) {
            (Hyperplane::Plane(a), Hyperplane::Plane(b)) => equal_families(
                a.spec_vectors()@,
                b.spec_vectors()@,
            ),
            (Hyperplane::Normal(a), Hyperplane::Normal(b)) => equal_coordinates(a@, b@),
            _ => false,
        }
    }
}

} // verus!
