//! What is written down is read back as it was.
//!
//! This holds of rays and mirrors that are what their constructors make
//! them, where numbers do not round. Where they do, a ray's direction, say,
//! is normalised again when it is read, and may come out a little different.

use crate::cylinder::Cylinder;
use crate::exact::{is_exact, lemma_times_one, lemma_times_square_of_opposite, times};
use crate::format::{lemma_tag_injective, parsed_tag, tag, Kind};
use crate::hyperplane::{is_free, orthonormal_twin, HyperplaneBasis, HyperplaneBasisOrtho};
use crate::json::{is_position_of, lemma_position_unique, Doc};
use crate::linalg::LinearAlgebra;
use crate::plane::PlaneMirror;
use crate::ray::{is_direction, Ray};
use crate::read::{
    array_at, cylinder_in, list_in, nested_in, number_at, plane_in, ray_in, rays_in, scene_in,
    simplex_in, simulation_in, sphere_in, vector_at, vector_in, vector_of_item, vectors_in_first,
    Fault,
};
use crate::scene::Shape;
use crate::scalar::{reciprocal, Scalar};
use crate::simplex::{corners, edges, Simplex};
use crate::sphere::Sphere;
use crate::vector::{
    difference_of, lemma_array_of, lemma_array_of_view, lemma_vector_of,
    lemma_vector_of_view, norm, norm_squared, normalized, sum_of, vector_of, Vector,
};
use crate::write::{
    doc_of_cylinder, doc_of_plane, doc_of_ray, doc_of_scene, doc_of_simplex, doc_of_simulation,
    doc_of_sphere, doc_of_vector, doc_of_vectors, named,
};
use vstd::prelude::*;

verus! {

broadcast use vstd::array::group_array_axioms;

/// The members of an object with two members of different names are found
/// under their names.
pub proof fn lemma_members_of_two<S: Scalar>(k0: Seq<char>, d0: Doc<S>, k1: Seq<char>, d1: Doc<S>)
    requires
        k0 != k1,
    ensures
        Doc::Object(seq![(k0, d0), (k1, d1)]).member(k0) == Some(d0),
        Doc::Object(seq![(k0, d0), (k1, d1)]).member(k1) == Some(d1),
{
    let members = seq![(k0, d0), (k1, d1)];
    assert(is_position_of(members, k0, 0));
    assert(is_position_of(members, k1, 1));
    lemma_position_unique(members, k0, 0);
    lemma_position_unique(members, k1, 1);
}

/// The members of an object with three members of different names are
/// found under their names.
pub proof fn lemma_members_of_three<S: Scalar>(
    k0: Seq<char>,
    d0: Doc<S>,
    k1: Seq<char>,
    d1: Doc<S>,
    k2: Seq<char>,
    d2: Doc<S>,
)
    requires
        k0 != k1,
        k0 != k2,
        k1 != k2,
    ensures
        Doc::Object(seq![(k0, d0), (k1, d1), (k2, d2)]).member(k0) == Some(d0),
        Doc::Object(seq![(k0, d0), (k1, d1), (k2, d2)]).member(k1) == Some(d1),
        Doc::Object(seq![(k0, d0), (k1, d1), (k2, d2)]).member(k2) == Some(d2),
{
    let members = seq![(k0, d0), (k1, d1), (k2, d2)];
    assert(is_position_of(members, k0, 0));
    assert(is_position_of(members, k1, 1));
    assert(is_position_of(members, k2, 2));
    lemma_position_unique(members, k0, 0);
    lemma_position_unique(members, k1, 1);
    lemma_position_unique(members, k2, 2);
}

/// A vector that is written down is read back as it was.
pub proof fn lemma_vector_round_trip<S: Scalar, const D: usize>(v: Vector<S, D>)
    ensures
        doc_of_vector(v@).elements() matches Some(items) && vector_in::<S, D>(items) == Some(v),
{
    let items = doc_of_vector(v@)->Array_0;
    assert forall|i: int| 0 <= i < items.len() implies (#[trigger] items[i]).number().is_some() by {
        assert(items[i] == Doc::Real(v@[i]));
    }
    let read = Seq::new(D as nat, |i: int| items[i].number().unwrap());
    assert(read =~= v@);
    lemma_vector_of_view(v);
}

proof fn lemma_root_of_one(sigma: real)
    requires
        sigma >= 0 as real,
        times(sigma, sigma) == 1 as real,
    ensures
        sigma == 1 as real,
{
    reveal(times);
    assert(sigma == 1 as real) by (nonlinear_arith)
        requires
            sigma >= 0 as real,
            sigma * sigma == 1 as real,
    ;
}

/// Where numbers do not round, normalising a vector of norm one changes
/// nothing.
pub proof fn lemma_normalized_unit_vector<S: Scalar>(value: spec_fn(S) -> real, v: Seq<S>)
    requires
        is_exact(value),
        norm_squared(v) == S::one_value(),
    ensures
        normalized(v) == v,
        is_direction(v),
{
    let s = norm(v);
    let sigma = value(s);
    assert(value(norm_squared(v)) == 1 as real);
    assert(sigma >= 0 as real && times(sigma, sigma) == 1 as real);
    lemma_root_of_one(sigma);
    let q = normalized(v);
    assert forall|i: int| 0 <= i < v.len() implies q[i] == v[i] by {
        assert(times(value(v[i].quotient(s)), value(s)) == value(v[i]));
        lemma_times_one(value(q[i]));
        assert(value(q[i]) == value(v[i]));
    }
    assert(q =~= v);
    assert(norm_squared(v).finite());
    assert(S::zero_value().below(norm_squared(v)) == (value(S::zero_value()) < value(
        norm_squared(v),
    )));
}

/// The names of the members of a ray differ.
proof fn lemma_ray_names()
    ensures
        "origin"@ != "direction"@,
{
    reveal_strlit("origin");
    reveal_strlit("direction");
    assert("origin"@.len() != "direction"@.len());
}

/// Where numbers do not round, a ray whose direction is of norm one is
/// read back as it was written down.
pub proof fn lemma_ray_round_trip<S: Scalar, const D: usize>(
    value: spec_fn(S) -> real,
    ray: Ray<S, D>,
)
    requires
        is_exact(value),
        norm_squared(ray.dir@) == S::one_value(),
    ensures
        ray_in::<S, D>(doc_of_ray(ray)) == Ok::<Ray<S, D>, Fault>(ray),
{
    let doc = doc_of_ray(ray);
    lemma_ray_names();
    lemma_members_of_two("origin"@, doc_of_vector(ray.origin@), "direction"@, doc_of_vector(ray.dir@));
    lemma_vector_round_trip(ray.origin);
    lemma_vector_round_trip(ray.dir);
    lemma_normalized_unit_vector(value, ray.dir@);
    lemma_vector_of_view(ray.dir);
    assert(array_at(doc, "origin"@) == doc_of_vector(ray.origin@).elements());
    assert(array_at(doc, "direction"@) == doc_of_vector(ray.dir@).elements());
}

/// Whether `radius` is above zero and `radius_sq` its square.
pub open spec fn is_sound_radius<S: Scalar>(radius: S, radius_sq: S) -> bool {
    S::zero_value().below(radius) && radius_sq == radius.product(radius)
}

/// Where numbers do not round, the radius that a constructor keeps is sound.
pub proof fn lemma_kept_radius_is_sound<S: Scalar>(value: spec_fn(S) -> real, radius: S)
    requires
        is_exact(value),
        S::zero_value().below(radius.magnitude()),
    ensures
        is_sound_radius(radius.magnitude(), radius.product(radius)),
        radius.magnitude().magnitude() == radius.magnitude(),
{
    let kept = radius.magnitude();
    assert(value(kept.product(kept)) == times(value(kept), value(kept)));
    assert(value(radius.product(radius)) == times(value(radius), value(radius)));
    lemma_times_square_of_opposite(value(radius));
    assert(value(kept.product(kept)) == value(radius.product(radius)));
    assert(value(kept.magnitude()) == value(kept));
}

/// Where numbers do not round, a radius that is sound is its own magnitude.
proof fn lemma_sound_radius_is_kept<S: Scalar>(value: spec_fn(S) -> real, radius: S)
    requires
        is_exact(value),
        S::zero_value().below(radius),
    ensures
        radius.magnitude() == radius,
        S::zero_value().below(radius.magnitude()),
{
    assert(S::zero_value().below(radius) == (value(S::zero_value()) < value(radius)));
    assert(value(radius.magnitude()) == value(radius));
}

impl<S: Scalar, const D: usize> Sphere<S, D> {
    /// Whether the radius is above zero and the squared radius its square.
    pub open spec fn is_sound(&self) -> bool {
        is_sound_radius(self.spec_radius(), self.spec_radius_sq())
    }
}

impl<S: Scalar, const D: usize> Cylinder<S, D> {
    /// Whether the radius is above zero, the squared radius its square, and
    /// the inverse of the squared length of the axis what it says.
    pub open spec fn is_sound(&self) -> bool {
        &&& is_sound_radius(self.spec_radius(), self.spec_radius_sq())
        &&& self.spec_inv_norm_dist_squared() == reciprocal(
            norm_squared(self.spec_segment_dist()@),
        )
    }
}

impl<S: LinearAlgebra, const D: usize> PlaneMirror<S, D> {
    /// Whether the mirror is what [`PlaneMirror::try_new`] makes of its
    /// centre and spanning vectors.
    pub open spec fn is_sound(&self) -> bool {
        Self::checked(self.spec_plane().spec_vectors()) == Some(*self)
    }
}

impl<S: LinearAlgebra, const D: usize> Simplex<S, D> {
    /// Whether the edges are a free family, and the orthonormal family
    /// what orthonormalising them gives.
    pub open spec fn is_sound(&self) -> bool {
        let vectors = self.spec_plane().spec_vectors();
        &&& is_free(vectors)
        &&& self.spec_ortho() == HyperplaneBasisOrtho::<S, D>::of(orthonormal_twin(vectors))
    }
}

/// Where numbers do not round, every sphere that is made is sound.
pub proof fn lemma_new_sphere_is_sound<S: Scalar, const D: usize>(
    value: spec_fn(S) -> real,
    center: Vector<S, D>,
    radius: S,
)
    requires
        is_exact(value),
    ensures
        Sphere::checked(center, radius) matches Some(sphere) ==> sphere.is_sound(),
{
    if S::zero_value().below(radius.magnitude()) {
        lemma_kept_radius_is_sound(value, radius);
        Sphere::lemma_of(center, radius.magnitude(), radius.product(radius));
    }
}

/// Where numbers do not round, every cylinder that is made is sound.
pub proof fn lemma_new_cylinder_is_sound<S: Scalar, const D: usize>(
    value: spec_fn(S) -> real,
    start: Vector<S, D>,
    end: Vector<S, D>,
    radius: S,
)
    requires
        is_exact(value),
    ensures
        Cylinder::checked(start, end, radius) matches Some(cylinder) ==> cylinder.is_sound(),
{
    if S::zero_value().below(radius.magnitude()) {
        lemma_kept_radius_is_sound(value, radius);
        let dist = difference_of(end@, start@);
        lemma_vector_of::<S, D>(dist);
        Cylinder::lemma_of(
            start,
            vector_of(dist),
            reciprocal(norm_squared(dist)),
            radius.magnitude(),
            radius.product(radius),
        );
    }
}

/// Every plane mirror that is made is sound.
pub proof fn lemma_new_plane_is_sound<S: LinearAlgebra, const D: usize>(
    vectors: [Vector<S, D>; D],
)
    ensures
        PlaneMirror::checked(vectors) matches Some(mirror) ==> mirror.is_sound(),
{
    if is_free(vectors) {
        let plane = HyperplaneBasis::of(vectors);
        let ortho = HyperplaneBasisOrtho::of(orthonormal_twin(vectors));
        PlaneMirror::lemma_of(plane, ortho);
        HyperplaneBasis::lemma_of(vectors);
    }
}

/// Every simplex that is made is sound.
pub proof fn lemma_new_simplex_is_sound<S: LinearAlgebra, const D: usize>(
    points: [Vector<S, D>; D],
)
    ensures
        Simplex::checked(points) matches Some(simplex) ==> simplex.is_sound(),
{
    if Simplex::<S, D>::spans(points) {
        let plane = HyperplaneBasis::of(edges(points));
        let ortho = HyperplaneBasisOrtho::of(orthonormal_twin(edges(points)));
        Simplex::lemma_of(plane, ortho);
        HyperplaneBasis::lemma_of(edges(points));
    }
}

/// The names of the members of the mirrors differ.
proof fn lemma_mirror_names()
    ensures
        "center"@ != "radius"@,
        "center"@ != "basis"@,
        "start"@ != "end"@,
        "start"@ != "radius"@,
        "end"@ != "radius"@,
{
    reveal_strlit("center");
    reveal_strlit("radius");
    reveal_strlit("basis");
    reveal_strlit("start");
    reveal_strlit("end");
    assert("center"@[0] != "radius"@[0]);
    assert("center"@.len() != "basis"@.len());
    assert("start"@.len() != "end"@.len());
    assert("start"@.len() != "radius"@.len());
    assert("end"@.len() != "radius"@.len());
}

/// Where numbers do not round, a sphere that is sound is read back as it
/// was written down.
pub proof fn lemma_sphere_round_trip<S: Scalar, const D: usize>(
    value: spec_fn(S) -> real,
    sphere: Sphere<S, D>,
)
    requires
        is_exact(value),
        sphere.is_sound(),
    ensures
        sphere_in::<S, D>(doc_of_sphere(sphere)) == Ok::<Sphere<S, D>, Fault>(sphere),
{
    let doc = doc_of_sphere(sphere);
    let radius = sphere.spec_radius();
    lemma_mirror_names();
    lemma_members_of_two(
        "center"@,
        doc_of_vector(sphere.spec_center()@),
        "radius"@,
        Doc::Real(radius),
    );
    lemma_vector_round_trip(sphere.spec_center());
    lemma_sound_radius_is_kept(value, radius);
    sphere.lemma_ext();
    assert(vector_at::<S, D>(doc, "center"@) == Some(sphere.spec_center()));
    assert(number_at(doc, "radius"@) == Some(radius));
}

/// Where numbers do not round, a cylinder that is sound is read back as
/// it was written down.
pub proof fn lemma_cylinder_round_trip<S: Scalar, const D: usize>(
    value: spec_fn(S) -> real,
    cylinder: Cylinder<S, D>,
)
    requires
        is_exact(value),
        cylinder.is_sound(),
    ensures
        cylinder_in::<S, D>(doc_of_cylinder(cylinder)) == Ok::<Cylinder<S, D>, Fault>(
            cylinder,
        ),
{
    let doc = doc_of_cylinder(cylinder);
    let radius = cylinder.spec_radius();
    let start = cylinder.spec_start();
    let dist = cylinder.spec_segment_dist();
    let end = vector_of::<S, D>(sum_of(start@, dist@));
    lemma_vector_of::<S, D>(sum_of(start@, dist@));
    lemma_mirror_names();
    lemma_members_of_three(
        "start"@,
        doc_of_vector(start@),
        "end"@,
        doc_of_vector(sum_of(start@, dist@)),
        "radius"@,
        Doc::Real(radius),
    );
    lemma_vector_round_trip(start);
    lemma_vector_round_trip(end);
    lemma_sound_radius_is_kept(value, radius);
    cylinder.lemma_ext();
    assert(vector_at::<S, D>(doc, "start"@) == Some(start));
    assert(vector_at::<S, D>(doc, "end"@) == Some(end));
    assert(number_at(doc, "radius"@) == Some(radius));
    // (start + dist) - start is dist
    let back = difference_of(end@, start@);
    assert forall|i: int| 0 <= i < D implies back[i] == dist@[i] by {
        assert(value(start@[i].sum(dist@[i])) == value(start@[i]) + value(dist@[i]));
        assert(value(back[i]) == value(end@[i]) - value(start@[i]));
        assert(value(back[i]) == value(dist@[i]));
    }
    assert(back =~= dist@);
    lemma_vector_of_view(dist);
}

/// A plane mirror that is sound is read back as it was written down.
pub proof fn lemma_plane_round_trip<S: LinearAlgebra, const D: usize>(mirror: PlaneMirror<S, D>)
    requires
        D >= 1,
        mirror.is_sound(),
    ensures
        plane_in::<S, D>(doc_of_plane(mirror)) == Ok::<PlaneMirror<S, D>, Fault>(mirror),
{
    let doc = doc_of_plane(mirror);
    let vectors = mirror.spec_plane().spec_vectors();
    lemma_mirror_names();
    lemma_members_of_two(
        "center"@,
        doc_of_vector(vectors@[0]@),
        "basis"@,
        doc_of_vectors(vectors@, 1),
    );
    lemma_vector_round_trip(vectors@[0]);
    let basis = doc_of_vectors(vectors@, 1)->Array_0;
    assert(array_at(doc, "basis"@) == Some(basis));
    assert(vector_at::<S, D>(doc, "center"@) == Some(vectors@[0]));
    assert forall|i: int| 0 <= i < basis.len() implies match (#[trigger] basis[i]).elements() {
        Some(coords) => vector_in::<S, D>(coords) == Some(vectors@[1 + i]),
        None => false,
    } by {
        lemma_vector_round_trip(vectors@[1 + i]);
    }
    assert(vectors_in_first::<S, D>(basis, basis.len() as int));
    let read = Seq::new(
        D as nat,
        |i: int|
            if i == 0 {
                vectors@[0]
            } else {
                vector_of_item::<S, D>(basis, i - 1)
            },
    );
    assert forall|i: int| 0 <= i < D implies read[i] == vectors@[i] by {
        if i > 0 {
            assert(basis[i - 1].elements().is_some());
        }
    }
    assert(read =~= vectors@);
    lemma_array_of_view(vectors);
}

/// Where numbers do not round, a simplex that is sound is read back as it
/// was written down.
pub proof fn lemma_simplex_round_trip<S: LinearAlgebra, const D: usize>(
    value: spec_fn(S) -> real,
    simplex: Simplex<S, D>,
)
    requires
        is_exact(value),
        D >= 1,
        simplex.is_sound(),
    ensures
        simplex_in::<S, D>(doc_of_simplex(simplex)) == Ok::<Simplex<S, D>, Fault>(simplex),
{
    let doc = doc_of_simplex(simplex);
    let vectors = simplex.spec_plane().spec_vectors();
    let vertices = corners(vectors);
    let made = Seq::new(
        D as nat,
        |i: int|
            if i == 0 {
                vectors[0]
            } else {
                vector_of(sum_of(vectors[i]@, vectors[0]@))
            },
    );
    lemma_array_of::<Vector<S, D>, D>(made);
    assert(vertices@ == made);
    let points = doc_of_vectors(vertices@, 0)->Array_0;
    assert(is_position_of(seq![("points"@, doc_of_vectors(vertices@, 0))], "points"@, 0));
    lemma_position_unique(seq![("points"@, doc_of_vectors(vertices@, 0))], "points"@, 0);
    assert(array_at(doc, "points"@) == Some(points));
    assert forall|i: int| 0 <= i < points.len() implies match (#[trigger] points[i]).elements() {
        Some(coords) => vector_in::<S, D>(coords) == Some(vertices@[i]),
        None => false,
    } by {
        lemma_vector_round_trip(vertices@[i]);
    }
    assert(vectors_in_first::<S, D>(points, points.len() as int));
    let read = Seq::new(D as nat, |i: int| vector_of_item::<S, D>(points, i));
    assert forall|i: int| 0 <= i < D implies read[i] == vertices@[i] by {
        assert(points[i].elements().is_some());
    }
    assert(read =~= vertices@);
    lemma_array_of_view(vertices);
    // the edges of the vertices are the edges that the simplex holds
    let back = Seq::new(
        D as nat,
        |i: int|
            if i == 0 {
                vertices[0]
            } else {
                vector_of(difference_of(vertices[i]@, vertices[0]@))
            },
    );
    lemma_array_of::<Vector<S, D>, D>(back);
    assert forall|i: int| 0 <= i < D implies back[i] == vectors@[i] by {
        if i > 0 {
            let e = vectors@[i];
            let v0 = vectors@[0];
            lemma_vector_of::<S, D>(sum_of(e@, v0@));
            let moved = difference_of(vertices[i]@, vertices[0]@);
            assert forall|k: int| 0 <= k < D implies moved[k] == e@[k] by {
                assert(value(e@[k].sum(v0@[k])) == value(e@[k]) + value(v0@[k]));
                assert(value(moved[k]) == value(vertices[i]@[k]) - value(v0@[k]));
                assert(value(moved[k]) == value(e@[k]));
            }
            assert(moved =~= e@);
            lemma_vector_of_view(e);
        }
    }
    assert(back =~= vectors@);
    lemma_array_of_view(vectors);
    assert(edges(vertices) == vectors);
    simplex.lemma_ext();
    simplex.spec_plane().lemma_ext();
}

impl<S: LinearAlgebra, const D: usize> Shape<S, D> {
    /// Whether every mirror of the scene is sound, and of a kind that
    /// exists in `D` dimensions.
    pub open spec fn is_sound(self) -> bool
        decreases self, 0nat,
    {
        match self {
            Shape::Plane(m) => m.is_sound(),
            Shape::Simplex(m) => m.is_sound(),
            Shape::Sphere(m) => m.is_sound(),
            Shape::Cylinder(m) => m.is_sound() && D == 3,
            Shape::List(scenes) => Self::are_sound(scenes, scenes.len()),
        }
    }

    /// Whether the first `n` scenes of `scenes` are sound.
    pub open spec fn are_sound(scenes: Seq<Shape<S, D>>, n: nat) -> bool
        decreases scenes, n,
    {
        if n == 0 || n > scenes.len() {
            true
        } else {
            Self::are_sound(scenes, (n - 1) as nat) && scenes[n - 1].is_sound()
        }
    }
}

/// A name that is written is read as what was written.
pub proof fn lemma_parsed_tag(depth: nat, kind: Kind)
    ensures
        parsed_tag(tag(depth, kind)) == Some((depth, kind)),
{
    let text = tag(depth, kind);
    let (d, k) = choose|d: nat, k: Kind| text == tag(d, k);
    lemma_tag_injective(d, k, depth, kind);
}

/// The names of the members of a scene, and of a simulation, differ.
proof fn lemma_scene_names()
    ensures
        "type"@ != "data"@,
        "dim"@ != "mirror"@,
        "dim"@ != "rays"@,
        "mirror"@ != "rays"@,
{
    reveal_strlit("type");
    reveal_strlit("data");
    reveal_strlit("dim");
    reveal_strlit("mirror");
    reveal_strlit("rays");
    assert("type"@[0] != "data"@[0]);
    assert("dim"@.len() != "mirror"@.len());
    assert("dim"@.len() != "rays"@.len());
    assert("mirror"@.len() != "rays"@.len());
}

/// What is read from a scene that was written with its name beside it.
proof fn lemma_named_is_read<S: LinearAlgebra, const D: usize>(
    depth: nat,
    kind: Kind,
    data: Doc<S>,
)
    requires
        kind != Kind::Cylinder || D == 3,
    ensures
        scene_in::<S, D>(named(tag(depth, kind), data)) == nested_in::<S, D>(depth, kind, data),
{
    lemma_scene_names();
    lemma_members_of_two("type"@, Doc::<S>::Text(tag(depth, kind)), "data"@, data);
    lemma_parsed_tag(depth, kind);
}

/// Where numbers do not round, a scene that is sound is read back as it
/// was written down.
pub proof fn lemma_scene_round_trip<S: LinearAlgebra, const D: usize>(
    value: spec_fn(S) -> real,
    scene: Shape<S, D>,
)
    requires
        is_exact(value),
        D >= 1,
        scene.is_sound(),
    ensures
        scene_in::<S, D>(doc_of_scene(scene)) == Ok::<Shape<S, D>, Fault>(scene),
    decreases
            scene,
            (match scene {
                Shape::List(scenes) => scenes.len() + 1,
                _ => 0,
            }),
{
    match scene {
        Shape::Plane(m) => {
            lemma_named_is_read::<S, D>(0, Kind::Plane, doc_of_plane(m));
            lemma_plane_round_trip(m);
        },
        Shape::Simplex(m) => {
            lemma_named_is_read::<S, D>(0, Kind::Simplex, doc_of_simplex(m));
            lemma_simplex_round_trip(value, m);
        },
        Shape::Sphere(m) => {
            lemma_named_is_read::<S, D>(0, Kind::Sphere, doc_of_sphere(m));
            lemma_sphere_round_trip(value, m);
        },
        Shape::Cylinder(m) => {
            lemma_named_is_read::<S, D>(0, Kind::Cylinder, doc_of_cylinder(m));
            lemma_cylinder_round_trip(value, m);
        },
        Shape::List(scenes) => {
            let docs = Seq::new(
                scenes.len(),
                |i: int|
                    if 0 <= i < scenes.len() {
                        doc_of_scene(scenes[i])
                    } else {
                        Doc::Null
                    },
            );
            let written = doc_of_scene(scene);
            assert(written->Object_0[1].1->Array_0 =~= docs);
            assert(written->Object_0 =~= named(tag(1, Kind::Dynamic), Doc::Array(docs))->Object_0);
            assert(written == named(tag(1, Kind::Dynamic), Doc::Array(docs)));
            lemma_named_is_read::<S, D>(1, Kind::Dynamic, Doc::Array(docs));
            lemma_list_round_trip(value, scene, scenes, docs, scenes.len());
            assert(scenes.subrange(0, scenes.len() as int) =~= scenes);
        },
    }
}

/// Where numbers do not round, the first `n` scenes of a list that is
/// sound are read back as they were written down.
proof fn lemma_list_round_trip<S: LinearAlgebra, const D: usize>(
    value: spec_fn(S) -> real,
    list: Shape<S, D>,
    scenes: Seq<Shape<S, D>>,
    docs: Seq<Doc<S>>,
    n: nat,
)
    requires
        is_exact(value),
        D >= 1,
        list == Shape::List(scenes),
        Shape::are_sound(scenes, n),
        n <= scenes.len(),
        docs.len() == scenes.len(),
        forall|i: int| 0 <= i < scenes.len() ==> #[trigger] docs[i] == doc_of_scene(scenes[i]),
    ensures
        list_in::<S, D>(0, Kind::Dynamic, docs, n) == Ok::<Seq<Shape<S, D>>, Fault>(
            scenes.subrange(0, n as int),
        ),
    decreases list, n,
{
    if n == 0 {
        assert(scenes.subrange(0, 0) =~= Seq::<Shape<S, D>>::empty());
    } else {
        lemma_list_round_trip(value, list, scenes, docs, (n - 1) as nat);
        let last = scenes[n - 1];
        assert(last.is_sound());
        assert(decreases_to!(list => list->List_0));
        assert(decreases_to!(scenes => scenes[n - 1]));
        lemma_scene_round_trip(value, last);
        assert(docs[n - 1] == doc_of_scene(last));
        assert(nested_in::<S, D>(0, Kind::Dynamic, docs[n - 1]) == scene_in::<S, D>(docs[n - 1]));
        assert(list_in::<S, D>(0, Kind::Dynamic, docs, n) == match list_in::<S, D>(
            0,
            Kind::Dynamic,
            docs,
            (n - 1) as nat,
        ) {
            Err(e) => Err(e),
            Ok(read) => match nested_in::<S, D>(0, Kind::Dynamic, docs[n - 1]) {
                Err(e) => Err(e),
                Ok(one) => Ok(read.push(one)),
            },
        });
        assert(scenes.subrange(0, n - 1).push(last) =~= scenes.subrange(0, n as int));
    }
}

/// Where numbers do not round, the first `n` rays of `rays` are read back
/// as they were written down.
proof fn lemma_rays_round_trip<S: Scalar, const D: usize>(
    value: spec_fn(S) -> real,
    rays: Seq<Ray<S, D>>,
    docs: Seq<Doc<S>>,
    n: nat,
)
    requires
        is_exact(value),
        n <= rays.len(),
        docs.len() == rays.len(),
        forall|i: int| 0 <= i < rays.len() ==> #[trigger] docs[i] == doc_of_ray(rays[i]),
        forall|i: int| 0 <= i < rays.len() ==> norm_squared((#[trigger] rays[i]).dir@) == S::one_value(),
    ensures
        rays_in::<S, D>(docs, n) == Ok::<Seq<Ray<S, D>>, Fault>(rays.subrange(0, n as int)),
    decreases n,
{
    if n == 0 {
        assert(rays.subrange(0, 0) =~= Seq::<Ray<S, D>>::empty());
    } else {
        lemma_rays_round_trip(value, rays, docs, (n - 1) as nat);
        let last = rays[n - 1];
        assert(norm_squared(last.dir@) == S::one_value());
        lemma_ray_round_trip(value, last);
        assert(docs[n - 1] == doc_of_ray(last));
        assert(rays.subrange(0, n - 1).push(last) =~= rays.subrange(0, n as int));
    }
}

/// Where numbers do not round, a simulation is read back as it was
/// written down: a scene that is sound, and rays whose directions are of
/// norm one.
pub proof fn lemma_simulation_round_trip<S: LinearAlgebra, const D: usize>(
    value: spec_fn(S) -> real,
    scene: Shape<S, D>,
    rays: Seq<Ray<S, D>>,
)
    requires
        is_exact(value),
        D >= 1,
        scene.is_sound(),
        forall|i: int| 0 <= i < rays.len() ==> norm_squared((#[trigger] rays[i]).dir@) == S::one_value(),
    ensures
        simulation_in::<S, D>(doc_of_simulation(scene, rays)) == Ok::<
            (Shape<S, D>, Seq<Ray<S, D>>),
            Fault,
        >((scene, rays)),
{
    let docs = Seq::new(rays.len(), |i: int| doc_of_ray(rays[i]));
    lemma_scene_names();
    lemma_members_of_three(
        "dim"@,
        Doc::<S>::Natural(D as u64),
        "mirror"@,
        doc_of_scene(scene),
        "rays"@,
        Doc::Array(docs),
    );
    lemma_scene_round_trip(value, scene);
    lemma_rays_round_trip(value, rays, docs, rays.len());
    assert(rays.subrange(0, rays.len() as int) =~= rays);
}

} // verus!
