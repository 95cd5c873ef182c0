//! Reading scenes and rays from documents.
//!
//! A simulation is written down as an object with three members: `dim`, the
//! dimension of space; `mirror`, the scene; and `rays`, an array of rays.
//! A ray is an object with the members `origin` and `direction`, each an
//! array of as many numbers as space has dimensions. A scene is an object
//! with the members `type`, a name as [`crate::format`] describes them, and
//! `data`, whose layout goes with the name.

use crate::cylinder::Cylinder;
use crate::format::{parse_tag, parsed_tag, Kind};
use crate::json::{docs_of, Doc, Json};
use crate::linalg::LinearAlgebra;
use crate::plane::PlaneMirror;
use crate::ray::{is_direction, Ray};
use crate::scalar::Scalar;
use crate::scene::{views_of, Scene, Shape};
use crate::simplex::Simplex;
use crate::text::{decimal, decimal_text};
use crate::sphere::Sphere;
use crate::vector::{array_of, lemma_array_of_view, lemma_vector_of_view, normalized, vector_of, Vector};
use vstd::prelude::*;
use vstd::string::StringExecFns;

verus! {

broadcast use vstd::array::group_array_axioms;

/// What can be wrong with a document that should hold a simulation.
#[derive(Clone, Debug, PartialEq, Eq)]
pub enum SceneError {
    /// The simulation has no `dim`.
    MissingDim,
    /// The `dim` of the simulation is no natural number.
    DimNotNatural,
    /// The `dim` of the simulation is not the dimension it is read for,
    /// which is the one given.
    WrongDim(usize),
    /// The simulation has no `mirror`.
    MissingMirror,
    /// The simulation has no `rays`.
    MissingRays,
    /// What should be an array is none.
    NotAnArray,
    MissingRayOrigin,
    MissingRayDirection,
    InvalidRayOrigin,
    InvalidRayDirection,
    /// The direction of a ray is zero, or not finite.
    DirectionNotNormalizable,
    MissingMirrorType,
    MirrorTypeNotText,
    MissingMirrorData,
    /// The `type` of a scene, which is the one given, is no name of a kind
    /// of mirrors that exists in that dimension.
    UnknownMirrorType(String),
    InvalidCenter,
    InvalidBasis,
    InvalidBasisVector,
    InvalidPoints,
    InvalidPoint,
    FamilyNotFree,
    InvalidSegmentStart,
    InvalidSegmentEnd,
    InvalidRadius,
    DegenerateRadius,
    /// The document has no `dim` to tell its dimension by.
    NoDimField,
    /// The `dim` of the document is no natural number.
    DimNotNumber,
    UnsupportedDim,
}

/// What a [`SceneError`] holds, as a mathematical value.
pub ghost enum Fault {
    MissingDim,
    DimNotNatural,
    WrongDim(usize),
    MissingMirror,
    MissingRays,
    NotAnArray,
    MissingRayOrigin,
    MissingRayDirection,
    InvalidRayOrigin,
    InvalidRayDirection,
    DirectionNotNormalizable,
    MissingMirrorType,
    MirrorTypeNotText,
    MissingMirrorData,
    UnknownMirrorType(Seq<char>),
    InvalidCenter,
    InvalidBasis,
    InvalidBasisVector,
    InvalidPoints,
    InvalidPoint,
    FamilyNotFree,
    InvalidSegmentStart,
    InvalidSegmentEnd,
    InvalidRadius,
    DegenerateRadius,
    NoDimField,
    DimNotNumber,
    UnsupportedDim,
}

impl View for SceneError {
    type V = Fault;

    open spec fn view(&self) -> Fault {
        match self {
            SceneError::MissingDim => Fault::MissingDim,
            SceneError::DimNotNatural => Fault::DimNotNatural,
            SceneError::WrongDim(d) => Fault::WrongDim(*d),
            SceneError::MissingMirror => Fault::MissingMirror,
            SceneError::MissingRays => Fault::MissingRays,
            SceneError::NotAnArray => Fault::NotAnArray,
            SceneError::MissingRayOrigin => Fault::MissingRayOrigin,
            SceneError::MissingRayDirection => Fault::MissingRayDirection,
            SceneError::InvalidRayOrigin => Fault::InvalidRayOrigin,
            SceneError::InvalidRayDirection => Fault::InvalidRayDirection,
            SceneError::DirectionNotNormalizable => Fault::DirectionNotNormalizable,
            SceneError::MissingMirrorType => Fault::MissingMirrorType,
            SceneError::MirrorTypeNotText => Fault::MirrorTypeNotText,
            SceneError::MissingMirrorData => Fault::MissingMirrorData,
            SceneError::UnknownMirrorType(tag) => Fault::UnknownMirrorType(tag@),
            SceneError::InvalidCenter => Fault::InvalidCenter,
            SceneError::InvalidBasis => Fault::InvalidBasis,
            SceneError::InvalidBasisVector => Fault::InvalidBasisVector,
            SceneError::InvalidPoints => Fault::InvalidPoints,
            SceneError::InvalidPoint => Fault::InvalidPoint,
            SceneError::FamilyNotFree => Fault::FamilyNotFree,
            SceneError::InvalidSegmentStart => Fault::InvalidSegmentStart,
            SceneError::InvalidSegmentEnd => Fault::InvalidSegmentEnd,
            SceneError::InvalidRadius => Fault::InvalidRadius,
            SceneError::DegenerateRadius => Fault::DegenerateRadius,
            SceneError::NoDimField => Fault::NoDimField,
            SceneError::DimNotNumber => Fault::DimNotNumber,
            SceneError::UnsupportedDim => Fault::UnsupportedDim,
        }
    }
}

impl Fault {
    /// What is wrong, in words.
    pub open spec fn description(self) -> Seq<char> {
        match self {
            Fault::MissingDim => "dim field expected"@,
            Fault::DimNotNatural => "dim field must be a positive integer"@,
            Fault::WrongDim(d) => "dimension must be "@ + decimal(d as nat),
            Fault::MissingMirror => "mirror field expected"@,
            Fault::MissingRays => "ray field expected"@,
            Fault::NotAnArray => "json value must be an array"@,
            Fault::MissingRayOrigin => "Missing ray origin"@,
            Fault::MissingRayDirection => "Missing ray direction"@,
            Fault::InvalidRayOrigin => "Invalid ray origin"@,
            Fault::InvalidRayDirection => "Invalid ray direction"@,
            Fault::DirectionNotNormalizable => "Unable to normalize ray direction"@,
            Fault::MissingMirrorType => "Missing mirror type"@,
            Fault::MirrorTypeNotText => "type must be a string"@,
            Fault::MissingMirrorData => "Missing mirror data"@,
            Fault::UnknownMirrorType(tag) => "invalid mirror type "@ + tag,
            Fault::InvalidCenter => "Failed to parse center"@,
            Fault::InvalidBasis => "Failed to parse basis"@,
            Fault::InvalidBasisVector => "Failed to parse basis vector"@,
            Fault::InvalidPoints => "Failed to parse points"@,
            Fault::InvalidPoint => "Failed to parse point"@,
            Fault::FamilyNotFree => "the provided family of vectors must be free"@,
            Fault::InvalidSegmentStart => "Failed to parse segment start"@,
            Fault::InvalidSegmentEnd => "Failed to parse segment end"@,
            Fault::InvalidRadius => "Failed to parse radius"@,
            Fault::DegenerateRadius => "the radius must not be zero"@,
            Fault::NoDimField => "invalid json: expected a \"dim\" field"@,
            Fault::DimNotNumber => "\"dim\" field must be a number"@,
            Fault::UnsupportedDim => "dimension must be 2 or 3"@,
        }
    }
}

impl SceneError {
    /// What is wrong, in words.
    pub fn message(&self) -> (r: String)
        ensures
            r@ == self@.description(),
    {
        match self {
            SceneError::MissingDim => String::from_str("dim field expected"),
            SceneError::DimNotNatural => String::from_str("dim field must be a positive integer"),
            SceneError::WrongDim(d) => {
                let mut text = String::from_str("dimension must be ");
                text.append(decimal_text(*d).as_str());
                text
            },
            SceneError::MissingMirror => String::from_str("mirror field expected"),
            SceneError::MissingRays => String::from_str("ray field expected"),
            SceneError::NotAnArray => String::from_str("json value must be an array"),
            SceneError::MissingRayOrigin => String::from_str("Missing ray origin"),
            SceneError::MissingRayDirection => String::from_str("Missing ray direction"),
            SceneError::InvalidRayOrigin => String::from_str("Invalid ray origin"),
            SceneError::InvalidRayDirection => String::from_str("Invalid ray direction"),
            SceneError::DirectionNotNormalizable => String::from_str("Unable to normalize ray direction"),
            SceneError::MissingMirrorType => String::from_str("Missing mirror type"),
            SceneError::MirrorTypeNotText => String::from_str("type must be a string"),
            SceneError::MissingMirrorData => String::from_str("Missing mirror data"),
            SceneError::UnknownMirrorType(tag) => {
                let mut text = String::from_str("invalid mirror type ");
                text.append(tag.as_str());
                text
            },
            SceneError::InvalidCenter => String::from_str("Failed to parse center"),
            SceneError::InvalidBasis => String::from_str("Failed to parse basis"),
            SceneError::InvalidBasisVector => String::from_str("Failed to parse basis vector"),
            SceneError::InvalidPoints => String::from_str("Failed to parse points"),
            SceneError::InvalidPoint => String::from_str("Failed to parse point"),
            SceneError::FamilyNotFree => String::from_str("the provided family of vectors must be free"),
            SceneError::InvalidSegmentStart => String::from_str("Failed to parse segment start"),
            SceneError::InvalidSegmentEnd => String::from_str("Failed to parse segment end"),
            SceneError::InvalidRadius => String::from_str("Failed to parse radius"),
            SceneError::DegenerateRadius => String::from_str("the radius must not be zero"),
            SceneError::NoDimField => String::from_str("invalid json: expected a \"dim\" field"),
            SceneError::DimNotNumber => String::from_str("\"dim\" field must be a number"),
            SceneError::UnsupportedDim => String::from_str("dimension must be 2 or 3"),
        }
    }
}

/// What a result holds, with what was wrong as a mathematical value.
pub open spec fn faults<T>(r: Result<T, SceneError>) -> Result<T, Fault> {
    match r {
        Ok(x) => Ok(x),
        Err(e) => Err(e@),
    }
}

/// The vector whose coordinates are the numbers of `items`, if these are
/// `D` numbers.
pub open spec fn vector_in<S: Scalar, const D: usize>(items: Seq<Doc<S>>) -> Option<Vector<S, D>> {
    if items.len() == D && forall|i: int|
        0 <= i < items.len() ==> (#[trigger] items[i]).number().is_some() {
        Some(vector_of(Seq::new(D as nat, |i: int| items[i].number().unwrap())))
    } else {
        None
    }
}

/// The elements of the member of `json` named `key`, if it is an array.
pub open spec fn array_at<S: Scalar>(json: Doc<S>, key: Seq<char>) -> Option<Seq<Doc<S>>> {
    match json.member(key) {
        Some(value) => value.elements(),
        None => None,
    }
}

/// The vector in the member of `json` named `key`, if it holds one.
pub open spec fn vector_at<S: Scalar, const D: usize>(json: Doc<S>, key: Seq<char>) -> Option<
    Vector<S, D>,
> {
    match array_at(json, key) {
        Some(items) => vector_in(items),
        None => None,
    }
}

/// The number in the member of `json` named `key`, if it holds one.
pub open spec fn number_at<S: Scalar>(json: Doc<S>, key: Seq<char>) -> Option<S> {
    match json.member(key) {
        Some(value) => value.number(),
        None => None,
    }
}

/// The ray that `json` holds, or what is wrong with it.
pub open spec fn ray_in<S: Scalar, const D: usize>(json: Doc<S>) -> Result<Ray<S, D>, Fault> {
    match (array_at(json, "origin"@), array_at(json, "direction"@)) {
        (None, _) => Err(Fault::MissingRayOrigin),
        (Some(_), None) => Err(Fault::MissingRayDirection),
        (Some(o), Some(d)) => match (vector_in::<S, D>(o), vector_in::<S, D>(d)) {
            (None, _) => Err(Fault::InvalidRayOrigin),
            (Some(_), None) => Err(Fault::InvalidRayDirection),
            (Some(origin), Some(dir)) => if is_direction(dir@) {
                Ok(Ray { origin, dir: vector_of(normalized(dir@)) })
            } else {
                Err(Fault::DirectionNotNormalizable)
            },
        },
    }
}

/// The sphere that `json` holds, or what is wrong with it.
pub open spec fn sphere_in<S: Scalar, const D: usize>(json: Doc<S>) -> Result<
    Sphere<S, D>,
    Fault,
> {
    match (vector_at::<S, D>(json, "center"@), number_at(json, "radius"@)) {
        (None, _) => Err(Fault::InvalidCenter),
        (Some(_), None) => Err(Fault::InvalidRadius),
        (Some(center), Some(radius)) => match Sphere::checked(center, radius) {
            Some(sphere) => Ok(sphere),
            None => Err(Fault::DegenerateRadius),
        },
    }
}

/// The cylinder that `json` holds, or what is wrong with it.
pub open spec fn cylinder_in<S: Scalar, const D: usize>(json: Doc<S>) -> Result<
    Cylinder<S, D>,
    Fault,
> {
    match (
        vector_at::<S, D>(json, "start"@),
        vector_at::<S, D>(json, "end"@),
        number_at(json, "radius"@),
    ) {
        (None, _, _) => Err(Fault::InvalidSegmentStart),
        (Some(_), None, _) => Err(Fault::InvalidSegmentEnd),
        (Some(_), Some(_), None) => Err(Fault::InvalidRadius),
        (Some(start), Some(end), Some(radius)) => match Cylinder::checked(start, end, radius) {
            Some(cylinder) => Ok(cylinder),
            None => Err(Fault::DegenerateRadius),
        },
    }
}

/// Whether the first `n` of `items` each hold a vector.
pub open spec fn vectors_in_first<S: Scalar, const D: usize>(items: Seq<Doc<S>>, n: int) -> bool {
    forall|i: int|
        0 <= i < n ==> match (#[trigger] items[i]).elements() {
            Some(coords) => vector_in::<S, D>(coords).is_some(),
            None => false,
        }
}

/// The vector that element `i` of `items` holds.
pub open spec fn vector_of_item<S: Scalar, const D: usize>(items: Seq<Doc<S>>, i: int) -> Vector<
    S,
    D,
> {
    vector_in::<S, D>(items[i].elements().unwrap()).unwrap()
}

/// The plane mirror that `json` holds, or what is wrong with it.
pub open spec fn plane_in<S: LinearAlgebra, const D: usize>(json: Doc<S>) -> Result<
    PlaneMirror<S, D>,
    Fault,
> {
    match vector_at::<S, D>(json, "center"@) {
        None => Err(Fault::InvalidCenter),
        Some(center) => match array_at(json, "basis"@) {
            None => Err(Fault::InvalidBasis),
            Some(basis) => if basis.len() != D - 1 {
                Err(Fault::InvalidBasis)
            } else if !vectors_in_first::<S, D>(basis, basis.len() as int) {
                Err(Fault::InvalidBasisVector)
            } else {
                match PlaneMirror::checked(
                    array_of(
                        Seq::new(
                            D as nat,
                            |i: int|
                                if i == 0 {
                                    center
                                } else {
                                    vector_of_item::<S, D>(basis, i - 1)
                                },
                        ),
                    ),
                ) {
                    Some(mirror) => Ok(mirror),
                    None => Err(Fault::FamilyNotFree),
                }
            },
        },
    }
}

/// The simplex that `json` holds, or what is wrong with it.
pub open spec fn simplex_in<S: LinearAlgebra, const D: usize>(json: Doc<S>) -> Result<
    Simplex<S, D>,
    Fault,
> {
    match array_at(json, "points"@) {
        None => Err(Fault::InvalidPoints),
        Some(points) => if points.len() != D {
            Err(Fault::InvalidPoints)
        } else if !vectors_in_first::<S, D>(points, points.len() as int) {
            Err(Fault::InvalidPoint)
        } else {
            match Simplex::checked(
                array_of(Seq::new(D as nat, |i: int| vector_of_item::<S, D>(points, i))),
            ) {
                Some(simplex) => Ok(simplex),
                None => Err(Fault::FamilyNotFree),
            }
        },
    }
}

/// Reads a vector from an array of `D` numbers.
pub fn json_array_to_vector<S: Scalar, const D: usize>(items: &[Json<S>]) -> (r: Option<
    Vector<S, D>,
>)
    ensures
        r == vector_in::<S, D>(docs_of(items@)),
{
    if items.len() != D {
        return None;
    }
    let mut out: Vector<S, D> = Vector::zeros();
    let mut i: usize = 0;
    while i < D
        invariant
            i <= D,
            items@.len() == D,
            forall|k: int| 0 <= k < i ==> (#[trigger] docs_of(items@)[k]).number() == Some(out@[k]),
        decreases D - i,
    {
        assert(docs_of(items@)[i as int] == items@[i as int]@);
        match items[i].as_real() {
            Some(x) => {
                out.coords[i] = x;
            },
            None => {
                return None;
            },
        }
        i += 1;
    }
    proof {
        assert(out@ =~= Seq::new(D as nat, |i: int| docs_of(items@)[i].number().unwrap()));
        lemma_vector_of_view(out);
    }
    Some(out)
}

fn array_member<'j, S: Scalar>(json: &'j Json<S>, key: &str) -> (r: Option<&'j Vec<Json<S>>>)
    ensures
        r.is_some() == array_at(json@, key@).is_some(),
        r matches Some(items) ==> Some(docs_of(items@)) == array_at(json@, key@),
{
    match json.get(key) {
        Some(value) => value.as_array(),
        None => None,
    }
}

fn vector_member<S: Scalar, const D: usize>(json: &Json<S>, key: &str) -> (r: Option<Vector<S, D>>)
    ensures
        r == vector_at::<S, D>(json@, key@),
{
    match array_member(json, key) {
        Some(items) => json_array_to_vector(items.as_slice()),
        None => None,
    }
}

fn number_member<S: Scalar>(json: &Json<S>, key: &str) -> (r: Option<S>)
    ensures
        r == number_at(json@, key@),
{
    match json.get(key) {
        Some(value) => value.as_real(),
        None => None,
    }
}

/// Reads `D` vectors: `first`, if there is one, then one from each of `items`.
fn vectors_from<S: Scalar, const D: usize>(first: Option<Vector<S, D>>, items: &Vec<Json<S>>) -> (r:
    Option<[Vector<S, D>; D]>)
    requires
        items@.len() + (if first.is_some() { 1int } else { 0int }) == D,
    ensures
        r.is_some() == vectors_in_first::<S, D>(docs_of(items@), items@.len() as int),
        r matches Some(vectors) ==> forall|k: int|
            0 <= k < D ==> #[trigger] vectors@[k] == (match first {
                Some(v) => if k == 0 {
                    v
                } else {
                    vector_of_item::<S, D>(docs_of(items@), k - 1)
                },
                None => vector_of_item::<S, D>(docs_of(items@), k),
            }),
{
    let offset: usize = if first.is_some() { 1 } else { 0 };
    let mut out: [Vector<S, D>; D] = [Vector::zeros();D];
    if let Some(v) = first {
        out[0] = v;
    }
    let mut i: usize = 0;
    while i < items.len()
        invariant
            i <= items.len(),
            items@.len() + offset == D,
            offset == (if first.is_some() { 1int } else { 0int }),
            first matches Some(v) ==> out@[0] == v,
            vectors_in_first::<S, D>(docs_of(items@), i as int),
            forall|k: int| 0 <= k < i ==> #[trigger] out@[k + offset] == vector_of_item::<S, D>(docs_of(items@), k),
        decreases items.len() - i,
    {
        assert(docs_of(items@)[i as int] == items@[i as int]@);
        let parsed = match items[i].as_array() {
            Some(coords) => json_array_to_vector::<S, D>(coords.as_slice()),
            None => None,
        };
        match parsed {
            Some(v) => {
                out[i + offset] = v;
            },
            None => {
                return None;
            },
        }
        i += 1;
    }
    proof {
        assert forall|k: int| 0 <= k < D implies #[trigger] out@[k] == (match first {
            Some(v) => if k == 0 {
                v
            } else {
                vector_of_item::<S, D>(docs_of(items@), k - 1)
            },
            None => vector_of_item::<S, D>(docs_of(items@), k),
        }) by {
            if k >= offset {
                assert(out@[(k - offset) + offset] == vector_of_item::<S, D>(docs_of(items@), k - offset));
            }
        }
    }
    Some(out)
}

/// Reads a ray.
pub fn ray_from_json<S: Scalar, const D: usize>(json: &Json<S>) -> (r: Result<Ray<S, D>, SceneError>)
    ensures
        faults(r) == ray_in::<S, D>(json@),
{
    let origin = match array_member(json, "origin") {
        Some(items) => items,
        None => {
            return Err(SceneError::MissingRayOrigin);
        },
    };
    let direction = match array_member(json, "direction") {
        Some(items) => items,
        None => {
            return Err(SceneError::MissingRayDirection);
        },
    };
    let origin = match json_array_to_vector::<S, D>(origin.as_slice()) {
        Some(v) => v,
        None => {
            return Err(SceneError::InvalidRayOrigin);
        },
    };
    let direction = match json_array_to_vector::<S, D>(direction.as_slice()) {
        Some(v) => v,
        None => {
            return Err(SceneError::InvalidRayDirection);
        },
    };
    match Ray::try_new(origin, direction) {
        Some(ray) => {
            proof {
                lemma_vector_of_view(ray.dir);
            }
            Ok(ray)
        },
        None => Err(SceneError::DirectionNotNormalizable),
    }
}

/// Reads a sphere.
pub fn sphere_from_json<S: Scalar, const D: usize>(json: &Json<S>) -> (r: Result<
    Sphere<S, D>,
    SceneError,
>)
    ensures
        faults(r) == sphere_in::<S, D>(json@),
{
    let center = match vector_member::<S, D>(json, "center") {
        Some(v) => v,
        None => {
            return Err(SceneError::InvalidCenter);
        },
    };
    let radius = match number_member(json, "radius") {
        Some(x) => x,
        None => {
            return Err(SceneError::InvalidRadius);
        },
    };
    match Sphere::new(center, radius) {
        Some(sphere) => Ok(sphere),
        None => Err(SceneError::DegenerateRadius),
    }
}

/// Reads a cylinder.
pub fn cylinder_from_json<S: Scalar, const D: usize>(json: &Json<S>) -> (r: Result<
    Cylinder<S, D>,
    SceneError,
>)
    ensures
        faults(r) == cylinder_in::<S, D>(json@),
{
    let start = match vector_member::<S, D>(json, "start") {
        Some(v) => v,
        None => {
            return Err(SceneError::InvalidSegmentStart);
        },
    };
    let end = match vector_member::<S, D>(json, "end") {
        Some(v) => v,
        None => {
            return Err(SceneError::InvalidSegmentEnd);
        },
    };
    let radius = match number_member(json, "radius") {
        Some(x) => x,
        None => {
            return Err(SceneError::InvalidRadius);
        },
    };
    match Cylinder::new(start, end, radius) {
        Some(cylinder) => Ok(cylinder),
        None => Err(SceneError::DegenerateRadius),
    }
}

/// Reads a plane mirror.
pub fn plane_from_json<S: LinearAlgebra, const D: usize>(json: &Json<S>) -> (r: Result<
    PlaneMirror<S, D>,
    SceneError,
>)
    requires
        D >= 1,
    ensures
        faults(r) == plane_in::<S, D>(json@),
{
    let center = match vector_member::<S, D>(json, "center") {
        Some(v) => v,
        None => {
            return Err(SceneError::InvalidCenter);
        },
    };
    let basis = match array_member(json, "basis") {
        Some(items) => items,
        None => {
            return Err(SceneError::InvalidBasis);
        },
    };
    if basis.len() != D - 1 {
        return Err(SceneError::InvalidBasis);
    }
    let vectors = match vectors_from(Some(center), basis) {
        Some(vectors) => vectors,
        None => {
            return Err(SceneError::InvalidBasisVector);
        },
    };
    proof {
        assert(vectors@ =~= Seq::new(
            D as nat,
            |i: int|
                if i == 0 {
                    center
                } else {
                    vector_of_item::<S, D>(docs_of(basis@), i - 1)
                },
        ));
        lemma_array_of_view(vectors);
    }
    match PlaneMirror::try_new(vectors) {
        Some(mirror) => Ok(mirror),
        None => Err(SceneError::FamilyNotFree),
    }
}

/// Reads a simplex.
pub fn simplex_from_json<S: LinearAlgebra, const D: usize>(json: &Json<S>) -> (r: Result<
    Simplex<S, D>,
    SceneError,
>)
    requires
        D >= 1,
    ensures
        faults(r) == simplex_in::<S, D>(json@),
{
    let points = match array_member(json, "points") {
        Some(items) => items,
        None => {
            return Err(SceneError::InvalidPoints);
        },
    };
    if points.len() != D {
        return Err(SceneError::InvalidPoints);
    }
    let vectors = match vectors_from::<S, D>(None, points) {
        Some(vectors) => vectors,
        None => {
            return Err(SceneError::InvalidPoint);
        },
    };
    proof {
        assert(vectors@ =~= Seq::new(D as nat, |i: int| vector_of_item::<S, D>(docs_of(points@), i)));
        lemma_array_of_view(vectors);
    }
    match Simplex::try_new(vectors) {
        Some(simplex) => Ok(simplex),
        None => Err(SceneError::FamilyNotFree),
    }
}

/// What the scene of a result holds, or what was wrong.
pub open spec fn viewed<S, const D: usize>(r: Result<Scene<S, D>, SceneError>) -> Result<
    Shape<S, D>,
    Fault,
> {
    match r {
        Ok(scene) => Ok(scene@),
        Err(e) => Err(e@),
    }
}

/// Whether mirrors of kind `kind` exist in `D` dimensions: cylinders are
/// of space alone.
pub open spec fn is_known<const D: usize>(kind: Kind) -> bool {
    kind != Kind::Cylinder || D == 3
}

/// The scene that `json` holds, or what is wrong with it.
pub open spec fn scene_in<S: LinearAlgebra, const D: usize>(json: Doc<S>) -> Result<
    Shape<S, D>,
    Fault,
>
    decreases json, 0nat,
{
    match json.member("type"@) {
        None => Err(Fault::MissingMirrorType),
        Some(name) => match name.text() {
            None => Err(Fault::MirrorTypeNotText),
            Some(text) => match json.member("data"@) {
                None => Err(Fault::MissingMirrorData),
                Some(data) => match parsed_tag(text) {
                    None => Err(Fault::UnknownMirrorType(text)),
                    Some((depth, kind)) => if is_known::<D>(kind) {
                        proof {
                            json.lemma_member_decreases("data"@);
                        }
                        nested_in::<S, D>(depth, kind, data)
                    } else {
                        Err(Fault::UnknownMirrorType(text))
                    },
                },
            },
        },
    }
}

/// The scene that `data` holds where it goes with a name for lists, nested
/// `depth` deep, of mirrors of kind `kind`; or what is wrong with it: with
/// the first element that something is wrong with, where it is a list.
pub open spec fn nested_in<S: LinearAlgebra, const D: usize>(
    depth: nat,
    kind: Kind,
    data: Doc<S>,
) -> Result<Shape<S, D>, Fault>
    decreases data, 1nat,
{
    if depth == 0 {
        match kind {
            Kind::Plane => match plane_in::<S, D>(data) {
                Ok(m) => Ok(Shape::Plane(m)),
                Err(e) => Err(e),
            },
            Kind::Simplex => match simplex_in::<S, D>(data) {
                Ok(m) => Ok(Shape::Simplex(m)),
                Err(e) => Err(e),
            },
            Kind::Sphere => match sphere_in::<S, D>(data) {
                Ok(m) => Ok(Shape::Sphere(m)),
                Err(e) => Err(e),
            },
            Kind::Cylinder => match cylinder_in::<S, D>(data) {
                Ok(m) => Ok(Shape::Cylinder(m)),
                Err(e) => Err(e),
            },
            Kind::Dynamic => scene_in::<S, D>(data),
        }
    } else {
        match data.elements() {
            None => Err(Fault::NotAnArray),
            Some(items) => {
                proof {
                    data.lemma_elements_decrease();
                }
                match list_in::<S, D>((depth - 1) as nat, kind, items, items.len()) {
                    Ok(list) => Ok(Shape::List(list)),
                    Err(e) => Err(e),
                }
            },
        }
    }
}

/// The scenes that the first `n` of `items` hold, or what is wrong with the
/// first of them that something is wrong with.
pub open spec fn list_in<S: LinearAlgebra, const D: usize>(
    depth: nat,
    kind: Kind,
    items: Seq<Doc<S>>,
    n: nat,
) -> Result<Seq<Shape<S, D>>, Fault>
    decreases items, n,
{
    if n == 0 || n > items.len() {
        Ok(Seq::empty())
    } else {
        match list_in::<S, D>(depth, kind, items, (n - 1) as nat) {
            Err(e) => Err(e),
            Ok(scenes) => match nested_in::<S, D>(depth, kind, items[n - 1]) {
                Err(e) => Err(e),
                Ok(scene) => Ok(scenes.push(scene)),
            },
        }
    }
}

/// Reads a scene: a mirror of the kind that the document names, or a list.
pub fn mirror_from_json<S: LinearAlgebra, const D: usize>(json: &Json<S>) -> (r: Result<
    Scene<S, D>,
    SceneError,
>)
    requires
        D >= 1,
    ensures
        viewed(r) == scene_in::<S, D>(json@),
    decreases *json, 0nat,
{
    let name = match json.get("type") {
        Some(name) => name,
        None => {
            return Err(SceneError::MissingMirrorType);
        },
    };
    let text = match name.as_str() {
        Some(text) => text,
        None => {
            return Err(SceneError::MirrorTypeNotText);
        },
    };
    let data = match json.get("data") {
        Some(data) => data,
        None => {
            return Err(SceneError::MissingMirrorData);
        },
    };
    let (depth, kind) = match parse_tag(text) {
        Some(parsed) => parsed,
        None => {
            return Err(SceneError::UnknownMirrorType(String::from_str(text)));
        },
    };
    if kind == Kind::Cylinder && D != 3 {
        return Err(SceneError::UnknownMirrorType(String::from_str(text)));
    }
    nested_from_json(depth, kind, data)
}

/// Reads what goes with a name for lists, nested `depth` deep, of mirrors
/// of kind `kind`.
pub fn nested_from_json<S: LinearAlgebra, const D: usize>(
    depth: usize,
    kind: Kind,
    data: &Json<S>,
) -> (r: Result<Scene<S, D>, SceneError>)
    requires
        D >= 1,
    ensures
        viewed(r) == nested_in::<S, D>(depth as nat, kind, data@),
    decreases *data, 1nat,
{
    if depth == 0 {
        match kind {
            Kind::Plane => match plane_from_json(data) {
                Ok(m) => Ok(Scene::Plane(m)),
                Err(e) => Err(e),
            },
            Kind::Simplex => match simplex_from_json(data) {
                Ok(m) => Ok(Scene::Simplex(m)),
                Err(e) => Err(e),
            },
            Kind::Sphere => match sphere_from_json(data) {
                Ok(m) => Ok(Scene::Sphere(m)),
                Err(e) => Err(e),
            },
            Kind::Cylinder => match cylinder_from_json(data) {
                Ok(m) => Ok(Scene::Cylinder(m)),
                Err(e) => Err(e),
            },
            Kind::Dynamic => mirror_from_json(data),
        }
    } else {
        let items = match data.as_array() {
            Some(items) => items,
            None => {
                return Err(SceneError::NotAnArray);
            },
        };
        let mut scenes: Vec<Scene<S, D>> = Vec::new();
        let mut i: usize = 0;
        assert(views_of(scenes@) =~= Seq::<Shape<S, D>>::empty());
        while i < items.len()
            invariant
                D >= 1,
                depth > 0,
                i <= items.len(),
                data@.elements() == Some(docs_of(items@)),
                forall|k: int| 0 <= k < items@.len() ==> decreases_to!(*data => #[trigger] items@[k]),
                list_in::<S, D>((depth - 1) as nat, kind, docs_of(items@), i as nat) == Ok::<
                    Seq<Shape<S, D>>,
                    Fault,
                >(views_of(scenes@)),
            decreases items.len() - i,
        {
            assert(decreases_to!(*data => items@[i as int]));
            match nested_from_json::<S, D>(depth - 1, kind, &items[i]) {
                Ok(scene) => {
                    proof {
                        assert(views_of(scenes@.push(scene)) =~= views_of(scenes@).push(scene@));
                    }
                    scenes.push(scene);
                },
                Err(e) => {
                    proof {
                        lemma_list_in_fails::<S, D>(
                            (depth - 1) as nat,
                            kind,
                            docs_of(items@),
                            (i + 1) as nat,
                            items@.len(),
                        );
                    }
                    return Err(e);
                },
            }
            i += 1;
        }
        Ok(Scene::List(scenes))
    }
}

/// Once something is wrong with an element, it stays wrong however many
/// more elements are read.
pub proof fn lemma_list_in_fails<S: LinearAlgebra, const D: usize>(
    depth: nat,
    kind: Kind,
    items: Seq<Doc<S>>,
    n: nat,
    m: nat,
)
    requires
        n <= m <= items.len(),
        list_in::<S, D>(depth, kind, items, n).is_err(),
    ensures
        list_in::<S, D>(depth, kind, items, m) == list_in::<S, D>(depth, kind, items, n),
    decreases m,
{
    if m > n {
        lemma_list_in_fails::<S, D>(depth, kind, items, n, (m - 1) as nat);
    }
}

/// The rays that the first `n` of `items` hold, or what is wrong with the
/// first of them that something is wrong with.
pub open spec fn rays_in<S: Scalar, const D: usize>(items: Seq<Doc<S>>, n: nat) -> Result<
    Seq<Ray<S, D>>,
    Fault,
>
    decreases n,
{
    if n == 0 || n > items.len() {
        Ok(Seq::empty())
    } else {
        match rays_in::<S, D>(items, (n - 1) as nat) {
            Err(e) => Err(e),
            Ok(rays) => match ray_in::<S, D>(items[n - 1]) {
                Err(e) => Err(e),
                Ok(ray) => Ok(rays.push(ray)),
            },
        }
    }
}

/// Once something is wrong with a ray, it stays wrong however many more
/// rays are read.
pub proof fn lemma_rays_in_fails<S: Scalar, const D: usize>(items: Seq<Doc<S>>, n: nat, m: nat)
    requires
        n <= m <= items.len(),
        rays_in::<S, D>(items, n).is_err(),
    ensures
        rays_in::<S, D>(items, m) == rays_in::<S, D>(items, n),
    decreases m,
{
    if m > n {
        lemma_rays_in_fails::<S, D>(items, n, (m - 1) as nat);
    }
}

/// The dimension of the simulation that `json` holds, which has to be 2 or 3.
pub open spec fn dimension_in<S: Scalar>(json: Doc<S>) -> Result<usize, Fault> {
    match json.member("dim"@) {
        None => Err(Fault::NoDimField),
        Some(dim) => match dim.natural() {
            None => Err(Fault::DimNotNumber),
            Some(n) => if n == 2 {
                Ok(2usize)
            } else if n == 3 {
                Ok(3usize)
            } else {
                Err(Fault::UnsupportedDim)
            },
        },
    }
}

/// The simulation that `json` holds: a scene and rays of `D`-dimensional
/// space; or what is wrong with it.
pub open spec fn simulation_in<S: LinearAlgebra, const D: usize>(json: Doc<S>) -> Result<
    (Shape<S, D>, Seq<Ray<S, D>>),
    Fault,
> {
    match json.member("dim"@) {
        None => Err(Fault::MissingDim),
        Some(dim) => match dim.natural() {
            None => Err(Fault::DimNotNatural),
            Some(n) => if n != D {
                Err(Fault::WrongDim(D))
            } else {
                match json.member("mirror"@) {
                    None => Err(Fault::MissingMirror),
                    Some(mirror) => match scene_in::<S, D>(mirror) {
                        Err(e) => Err(e),
                        Ok(scene) => match json.member("rays"@) {
                            None => Err(Fault::MissingRays),
                            Some(rays) => match rays.elements() {
                                None => Err(Fault::NotAnArray),
                                Some(items) => match rays_in::<S, D>(items, items.len()) {
                                    Err(e) => Err(e),
                                    Ok(rays) => Ok((scene, rays)),
                                },
                            },
                        },
                    },
                }
            },
        },
    }
}

/// What a result of [`deserialize_simulation`] holds, or what was wrong.
pub open spec fn viewed_simulation<S, const D: usize>(
    r: Result<(Scene<S, D>, Vec<Ray<S, D>>), SceneError>,
) -> Result<(Shape<S, D>, Seq<Ray<S, D>>), Fault> {
    match r {
        Ok((scene, rays)) => Ok((scene@, rays@)),
        Err(e) => Err(e@),
    }
}

/// Reads the dimension of a simulation, so as to know for which dimension
/// to read the rest.
pub fn dimension<S: Scalar>(json: &Json<S>) -> (r: Result<usize, SceneError>)
    ensures
        faults(r) == dimension_in(json@),
{
    let dim = match json.get("dim") {
        Some(dim) => dim,
        None => {
            return Err(SceneError::NoDimField);
        },
    };
    match dim.as_u64() {
        None => Err(SceneError::DimNotNumber),
        Some(n) => if n == 2 {
            Ok(2)
        } else if n == 3 {
            Ok(3)
        } else {
            Err(SceneError::UnsupportedDim)
        },
    }
}

/// Reads every ray of an array of rays.
pub fn rays_from_json<S: Scalar, const D: usize>(items: &Vec<Json<S>>) -> (r: Result<
    Vec<Ray<S, D>>,
    SceneError,
>)
    ensures
        r matches Ok(rays) ==> rays_in::<S, D>(docs_of(items@), items@.len()) == Ok::<
            Seq<Ray<S, D>>,
            Fault,
        >(rays@),
        r matches Err(e) ==> rays_in::<S, D>(docs_of(items@), items@.len()) == Err::<
            Seq<Ray<S, D>>,
            Fault,
        >(e@),
{
    let mut rays: Vec<Ray<S, D>> = Vec::new();
    let mut i: usize = 0;
    while i < items.len()
        invariant
            i <= items.len(),
            rays_in::<S, D>(docs_of(items@), i as nat) == Ok::<Seq<Ray<S, D>>, Fault>(rays@),
        decreases items.len() - i,
    {
        match ray_from_json::<S, D>(&items[i]) {
            Ok(ray) => {
                rays.push(ray);
            },
            Err(e) => {
                proof {
                    lemma_rays_in_fails::<S, D>(docs_of(items@), (i + 1) as nat, items@.len());
                }
                return Err(e);
            },
        }
        i += 1;
    }
    Ok(rays)
}

/// Reads a simulation: a scene and the rays to send through it.
pub fn deserialize_simulation<S: LinearAlgebra, const D: usize>(json: &Json<S>) -> (r: Result<
    (Scene<S, D>, Vec<Ray<S, D>>),
    SceneError,
>)
    requires
        D >= 1,
    ensures
        viewed_simulation(r) == simulation_in::<S, D>(json@),
{
    let dim = match json.get("dim") {
        Some(dim) => dim,
        None => {
            return Err(SceneError::MissingDim);
        },
    };
    let dim = match dim.as_u64() {
        Some(n) => n,
        None => {
            return Err(SceneError::DimNotNatural);
        },
    };
    if dim != D as u64 {
        return Err(SceneError::WrongDim(D));
    }
    let mirror = match json.get("mirror") {
        Some(mirror) => mirror,
        None => {
            return Err(SceneError::MissingMirror);
        },
    };
    let scene = match mirror_from_json::<S, D>(mirror) {
        Ok(scene) => scene,
        Err(e) => {
            return Err(e);
        },
    };
    let rays = match json.get("rays") {
        Some(rays) => rays,
        None => {
            return Err(SceneError::MissingRays);
        },
    };
    let items = match rays.as_array() {
        Some(items) => items,
        None => {
            return Err(SceneError::NotAnArray);
        },
    };
    match rays_from_json::<S, D>(items) {
        Ok(rays) => Ok((scene, rays)),
        Err(e) => Err(e),
    }
}

} // verus!
