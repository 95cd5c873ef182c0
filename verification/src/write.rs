//! Writing scenes and rays down as documents: see [`crate::read`] for the
//! layout.

use crate::cylinder::Cylinder;
use crate::format::{brackets, tag, JsonType, Kind};
use crate::json::{Doc, Json};
use crate::linalg::LinearAlgebra;
use crate::plane::PlaneMirror;
use crate::ray::Ray;
use crate::scalar::Scalar;
use crate::scene::{views_of, Scene, Shape};
use crate::simplex::{corners, Simplex};
use crate::sphere::Sphere;
use crate::vector::{sum_of, Vector};
use vstd::prelude::*;
use vstd::string::StringExecFns;

verus! {

broadcast use vstd::array::group_array_axioms;

/// The array of the numbers of `v`.
pub open spec fn doc_of_vector<S>(v: Seq<S>) -> Doc<S> {
    Doc::Array(Seq::new(v.len(), |i: int| Doc::Real(v[i])))
}

/// The array of the vectors of `vectors` from index `from` on.
pub open spec fn doc_of_vectors<S, const D: usize>(vectors: Seq<Vector<S, D>>, from: int) -> Doc<S> {
    Doc::Array(Seq::new((vectors.len() - from) as nat, |i: int| doc_of_vector(vectors[from + i]@)))
}

/// What a ray is written down as.
pub open spec fn doc_of_ray<S, const D: usize>(ray: Ray<S, D>) -> Doc<S> {
    Doc::Object(
        seq![
            ("origin"@, doc_of_vector(ray.origin@)),
            ("direction"@, doc_of_vector(ray.dir@)),
        ],
    )
}

/// What a sphere is written down as.
pub open spec fn doc_of_sphere<S: Scalar, const D: usize>(sphere: Sphere<S, D>) -> Doc<S> {
    Doc::Object(
        seq![
            ("center"@, doc_of_vector(sphere.spec_center()@)),
            ("radius"@, Doc::Real(sphere.spec_radius())),
        ],
    )
}

/// What a cylinder is written down as: its axis by its two ends.
pub open spec fn doc_of_cylinder<S: Scalar, const D: usize>(cylinder: Cylinder<S, D>) -> Doc<S> {
    Doc::Object(
        seq![
            ("start"@, doc_of_vector(cylinder.spec_start()@)),
            (
                "end"@,
                doc_of_vector(sum_of(cylinder.spec_start()@, cylinder.spec_segment_dist()@)),
            ),
            ("radius"@, Doc::Real(cylinder.spec_radius())),
        ],
    )
}

/// What a plane mirror is written down as.
pub open spec fn doc_of_plane<S: Scalar, const D: usize>(mirror: PlaneMirror<S, D>) -> Doc<S> {
    let vectors = mirror.spec_plane().spec_vectors()@;
    Doc::Object(
        seq![("center"@, doc_of_vector(vectors[0]@)), ("basis"@, doc_of_vectors(vectors, 1))],
    )
}

/// What a simplex is written down as: by its vertices.
pub open spec fn doc_of_simplex<S: Scalar, const D: usize>(simplex: Simplex<S, D>) -> Doc<S> {
    Doc::Object(
        seq![("points"@, doc_of_vectors(corners(simplex.spec_plane().spec_vectors())@, 0))],
    )
}

/// A scene with its name beside it.
pub open spec fn named<S>(name: Seq<char>, data: Doc<S>) -> Doc<S> {
    Doc::Object(seq![("type"@, Doc::Text(name)), ("data"@, data)])
}

/// What a scene is written down as: a mirror under its kind's name, a list
/// as a list of scenes that each come with their name.
pub open spec fn doc_of_scene<S: Scalar, const D: usize>(scene: Shape<S, D>) -> Doc<S>
    decreases scene,
{
    match scene {
        Shape::Plane(m) => named(tag(0, Kind::Plane), doc_of_plane(m)),
        Shape::Simplex(m) => named(tag(0, Kind::Simplex), doc_of_simplex(m)),
        Shape::Sphere(m) => named(tag(0, Kind::Sphere), doc_of_sphere(m)),
        Shape::Cylinder(m) => named(tag(0, Kind::Cylinder), doc_of_cylinder(m)),
        Shape::List(scenes) => named(
            tag(1, Kind::Dynamic),
            Doc::Array(
                Seq::new(
                    scenes.len(),
                    |i: int|
                        if 0 <= i < scenes.len() {
                            doc_of_scene(scenes[i])
                        } else {
                            Doc::Null
                        },
                ),
            ),
        ),
    }
}

/// What a simulation is written down as.
pub open spec fn doc_of_simulation<S: Scalar, const D: usize>(
    scene: Shape<S, D>,
    rays: Seq<Ray<S, D>>,
) -> Doc<S> {
    Doc::Object(
        seq![
            ("dim"@, Doc::Natural(D as u64)),
            ("mirror"@, doc_of_scene(scene)),
            ("rays"@, Doc::Array(Seq::new(rays.len(), |i: int| doc_of_ray(rays[i])))),
        ],
    )
}

impl<S, const D: usize> JsonType for PlaneMirror<S, D> {
    open spec fn depth() -> nat {
        0
    }

    open spec fn kind() -> Kind {
        Kind::Plane
    }

    fn json_type() -> (r: String) {
        proof {
            lemma_names();
        }
        String::from_str("plane")
    }
}

impl<S, const D: usize> JsonType for Simplex<S, D> {
    open spec fn depth() -> nat {
        0
    }

    open spec fn kind() -> Kind {
        Kind::Simplex
    }

    fn json_type() -> (r: String) {
        proof {
            lemma_names();
        }
        String::from_str("simplex")
    }
}

impl<S, const D: usize> JsonType for Sphere<S, D> {
    open spec fn depth() -> nat {
        0
    }

    open spec fn kind() -> Kind {
        Kind::Sphere
    }

    fn json_type() -> (r: String) {
        proof {
            lemma_names();
        }
        String::from_str("sphere")
    }
}

impl<S, const D: usize> JsonType for Cylinder<S, D> {
    open spec fn depth() -> nat {
        0
    }

    open spec fn kind() -> Kind {
        Kind::Cylinder
    }

    fn json_type() -> (r: String) {
        proof {
            lemma_names();
        }
        String::from_str("cylinder")
    }
}

impl<S, const D: usize> JsonType for Scene<S, D> {
    open spec fn depth() -> nat {
        0
    }

    open spec fn kind() -> Kind {
        Kind::Dynamic
    }

    fn json_type() -> (r: String) {
        proof {
            lemma_names();
        }
        String::from_str("dynamic")
    }
}

/// An object of one member.
fn object1<S>(k0: &str, v0: Json<S>) -> (r: Json<S>)
    ensures
        r@ == Doc::Object(seq![(k0@, v0@)]),
{
    let mut members: Vec<(String, Json<S>)> = Vec::new();
    members.push((String::from_str(k0), v0));
    let r = Json::Object(members);
    assert(r@->Object_0 =~= seq![(k0@, v0@)]);
    r
}

/// An object of two members.
fn object2<S>(k0: &str, v0: Json<S>, k1: &str, v1: Json<S>) -> (r: Json<S>)
    ensures
        r@ == Doc::Object(seq![(k0@, v0@), (k1@, v1@)]),
{
    let mut members: Vec<(String, Json<S>)> = Vec::new();
    members.push((String::from_str(k0), v0));
    members.push((String::from_str(k1), v1));
    let r = Json::Object(members);
    assert(r@->Object_0 =~= seq![(k0@, v0@), (k1@, v1@)]);
    r
}

/// An object of three members.
fn object3<S>(k0: &str, v0: Json<S>, k1: &str, v1: Json<S>, k2: &str, v2: Json<S>) -> (r: Json<S>)
    ensures
        r@ == Doc::Object(seq![(k0@, v0@), (k1@, v1@), (k2@, v2@)]),
{
    let mut members: Vec<(String, Json<S>)> = Vec::new();
    members.push((String::from_str(k0), v0));
    members.push((String::from_str(k1), v1));
    members.push((String::from_str(k2), v2));
    let r = Json::Object(members);
    assert(r@->Object_0 =~= seq![(k0@, v0@), (k1@, v1@), (k2@, v2@)]);
    r
}

/// Writes a vector down.
pub fn vector_to_json<S: Scalar, const D: usize>(v: &Vector<S, D>) -> (r: Json<S>)
    ensures
        r@ == doc_of_vector(v@),
{
    let mut items: Vec<Json<S>> = Vec::new();
    let mut i: usize = 0;
    while i < D
        invariant
            i <= D,
            items@.len() == i,
            forall|k: int| 0 <= k < i ==> (#[trigger] items@[k])@ == Doc::Real(v@[k]),
        decreases D - i,
    {
        items.push(Json::Real(v.get(i)));
        i += 1;
    }
    let r = Json::Array(items);
    assert(r@->Array_0 =~= Seq::new(v@.len(), |i: int| Doc::Real(v@[i])));
    r
}

/// Writes down the vectors of `vectors` from index `from` on.
fn vectors_to_json<S: Scalar, const D: usize>(vectors: &[Vector<S, D>; D], from: usize) -> (r: Json<
    S,
>)
    requires
        from <= D,
    ensures
        r@ == doc_of_vectors(vectors@, from as int),
{
    let mut items: Vec<Json<S>> = Vec::new();
    let mut i: usize = from;
    while i < D
        invariant
            from <= i <= D,
            items@.len() == i - from,
            forall|k: int| 0 <= k < i - from ==> (#[trigger] items@[k])@ == doc_of_vector(vectors@[from + k]@),
        decreases D - i,
    {
        items.push(vector_to_json(&vectors[i]));
        i += 1;
    }
    let r = Json::Array(items);
    assert(r@->Array_0 =~= Seq::new(
        (vectors@.len() - from) as nat,
        |i: int| doc_of_vector(vectors@[from + i]@),
    ));
    r
}

/// Writes a ray down.
pub fn ray_to_json<S: Scalar, const D: usize>(ray: &Ray<S, D>) -> (r: Json<S>)
    ensures
        r@ == doc_of_ray(*ray),
{
    object2("origin", vector_to_json(&ray.origin), "direction", vector_to_json(&ray.dir))
}

/// Writes a sphere down.
pub fn sphere_to_json<S: Scalar, const D: usize>(sphere: &Sphere<S, D>) -> (r: Json<S>)
    ensures
        r@ == doc_of_sphere(*sphere),
{
    object2("center", vector_to_json(sphere.center()), "radius", Json::Real(*sphere.radius()))
}

/// Writes a cylinder down.
pub fn cylinder_to_json<S: Scalar, const D: usize>(cylinder: &Cylinder<S, D>) -> (r: Json<S>)
    ensures
        r@ == doc_of_cylinder(*cylinder),
{
    let ends = cylinder.line_segment();
    object3(
        "start",
        vector_to_json(&ends[0]),
        "end",
        vector_to_json(&ends[1]),
        "radius",
        Json::Real(*cylinder.radius()),
    )
}

/// Writes a plane mirror down.
pub fn plane_to_json<S: Scalar, const D: usize>(mirror: &PlaneMirror<S, D>) -> (r: Json<S>)
    requires
        D >= 1,
    ensures
        r@ == doc_of_plane(*mirror),
{
    let vectors = mirror.inner_plane().vectors_raw();
    object2("center", vector_to_json(&vectors[0]), "basis", vectors_to_json(vectors, 1))
}

/// Writes a simplex down.
pub fn simplex_to_json<S: Scalar, const D: usize>(simplex: &Simplex<S, D>) -> (r: Json<S>)
    requires
        D >= 1,
    ensures
        r@ == doc_of_simplex(*simplex),
{
    let vertices = simplex.vertices();
    object1("points", vectors_to_json(&vertices, 0))
}

/// Puts the name `name` beside `data`.
fn with_name<S>(name: &str, data: Json<S>) -> (r: Json<S>)
    ensures
        r@ == named(name@, data@),
{
    object2("type", Json::Text(String::from_str(name)), "data", data)
}

/// The names that [`scene_to_json`] writes.
proof fn lemma_names()
    ensures
        forall|kind: Kind| #[trigger] tag(0, kind) == kind.name(),
        tag(1, Kind::Dynamic) == "[]dynamic"@,
{
    reveal_strlit("[]dynamic");
    reveal_strlit("dynamic");
    assert forall|kind: Kind| #[trigger] tag(0, kind) == kind.name() by {
        assert(brackets(0) + kind.name() =~= kind.name());
    }
    assert(brackets(1) =~= seq!['[', ']']) by {
        assert(brackets(0) =~= Seq::<char>::empty());
        reveal_with_fuel(brackets, 2);
    }
    assert(tag(1, Kind::Dynamic) =~= "[]dynamic"@);
}

/// Writes a scene down.
pub fn scene_to_json<S: LinearAlgebra, const D: usize>(scene: &Scene<S, D>) -> (r: Json<S>)
    requires
        D >= 1,
    ensures
        r@ == doc_of_scene(scene@),
    decreases scene,
{
    proof {
        lemma_names();
    }
    match scene {
        Scene::Plane(m) => with_name("plane", plane_to_json(m)),
        Scene::Simplex(m) => with_name("simplex", simplex_to_json(m)),
        Scene::Sphere(m) => with_name("sphere", sphere_to_json(m)),
        Scene::Cylinder(m) => with_name("cylinder", cylinder_to_json(m)),
        Scene::List(scenes) => {
            let mut items: Vec<Json<S>> = Vec::new();
            let mut i: usize = 0;
            while i < scenes.len()
                invariant
                    D >= 1,
                    i <= scenes.len(),
                    *scene == Scene::List(*scenes),
                    items@.len() == i,
                    forall|k: int| 0 <= k < i ==> (#[trigger] items@[k])@ == doc_of_scene(scenes@[k]@),
                decreases scenes.len() - i,
            {
                proof {
                    vstd::std_specs::vec::axiom_vec_index_decreases(*scenes, i as int);
                    assert(decreases_to!(*scene => scene->List_0));
                }
                items.push(scene_to_json(&scenes[i]));
                i += 1;
            }
            let data = Json::Array(items);
            proof {
                let list = views_of(scenes@);
                assert(*scene == Scene::List(*scenes));
                assert(scene@ == Shape::List(list));
                assert(list.len() == scenes@.len());
                let expected = doc_of_scene(Shape::List(list));
                assert(expected is Object);
                assert(expected->Object_0[1].1 is Array);
                assert(expected->Object_0[1].1->Array_0 =~= data@->Array_0);
                assert(expected->Object_0 =~= named(tag(1, Kind::Dynamic), data@)->Object_0);
            }
            with_name("[]dynamic", data)
        },
    }
}

/// Writes a simulation down: a scene and the rays to send through it.
pub fn serialize_simulation<S: LinearAlgebra, const D: usize>(
    mirror: &Scene<S, D>,
    rays: &Vec<Ray<S, D>>,
) -> (r: Json<S>)
    requires
        D >= 1,
    ensures
        r@ == doc_of_simulation(mirror@, rays@),
{
    let mut items: Vec<Json<S>> = Vec::new();
    let mut i: usize = 0;
    while i < rays.len()
        invariant
            i <= rays.len(),
            items@.len() == i,
            forall|k: int| 0 <= k < i ==> (#[trigger] items@[k])@ == doc_of_ray(rays@[k]),
        decreases rays.len() - i,
    {
        items.push(ray_to_json(&rays[i]));
        i += 1;
    }
    let written = Json::Array(items);
    assert(written@->Array_0 =~= Seq::new(rays@.len(), |i: int| doc_of_ray(rays@[i])));
    object3("dim", Json::Natural(D as u64), "mirror", scene_to_json(mirror), "rays", written)
}

} // verus!
