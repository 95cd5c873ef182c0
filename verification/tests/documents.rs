use miroir::cylinder::Cylinder;
use miroir::format::{parse_tag, tag_of, JsonType, Kind};
use miroir::json::Json;
use miroir::linalg::LinearAlgebra;
use miroir::path::{Outcome, RayPath};
use miroir::plane::PlaneMirror;
use miroir::ray::Ray;
use miroir::read::{
    cylinder_from_json, deserialize_simulation, dimension, json_array_to_vector,
    mirror_from_json, nested_from_json, plane_from_json, ray_from_json, rays_from_json,
    simplex_from_json, sphere_from_json, SceneError,
};
use miroir::scalar::Scalar;
use miroir::scene::Scene;
use miroir::simplex::{LineSegment, Simplex};
use miroir::sphere::Sphere;
use miroir::text::decimal_text;
use miroir::vector::Vector;
use miroir::write::{
    cylinder_to_json, plane_to_json, ray_to_json, scene_to_json, serialize_simulation,
    simplex_to_json, sphere_to_json, vector_to_json,
};
use nalgebra::{SMatrix, SVector};

#[derive(Clone, Copy, Debug, PartialEq, PartialOrd)]
struct Real(f64);

impl Scalar for Real {
    fn zero_value() -> Self {
        Real(0.0)
    }

    fn one_value() -> Self {
        Real(1.0)
    }

    fn of_natural(n: u64) -> Self {
        Real(n as f64)
    }

    fn sum(self, rhs: Self) -> Self {
        Real(self.0 + rhs.0)
    }

    fn difference(self, rhs: Self) -> Self {
        Real(self.0 - rhs.0)
    }

    fn product(self, rhs: Self) -> Self {
        Real(self.0 * rhs.0)
    }

    fn quotient(self, rhs: Self) -> Self {
        Real(self.0 / rhs.0)
    }

    fn negation(self) -> Self {
        Real(-self.0)
    }

    fn magnitude(self) -> Self {
        Real(self.0.abs())
    }

    fn root(self) -> Self {
        Real(self.0.sqrt())
    }

    fn fused(self, a: Self, b: Self) -> Self {
        Real(self.0.mul_add(a.0, b.0))
    }

    fn finite(self) -> bool {
        self.0.is_finite()
    }

    fn below(self, rhs: Self) -> bool {
        self.0 < rhs.0
    }

    fn at_most(self, rhs: Self) -> bool {
        self.0 <= rhs.0
    }

    fn lemma_below_is_at_most(_a: Self, _b: Self) {}

    fn lemma_below_excludes_at_least(_a: Self, _b: Self) {}

    fn lemma_below_is_transitive(_a: Self, _b: Self, _c: Self) {}

    fn zero() -> Self {
        Real(0.0)
    }

    fn one() -> Self {
        Real(1.0)
    }

    fn from_natural(n: u64) -> Self {
        Real(n as f64)
    }

    fn add(self, rhs: Self) -> Self {
        Real(self.0 + rhs.0)
    }

    fn sub(self, rhs: Self) -> Self {
        Real(self.0 - rhs.0)
    }

    fn mul(self, rhs: Self) -> Self {
        Real(self.0 * rhs.0)
    }

    fn div(self, rhs: Self) -> Self {
        Real(self.0 / rhs.0)
    }

    fn neg(self) -> Self {
        Real(-self.0)
    }

    fn abs(self) -> Self {
        Real(self.0.abs())
    }

    fn sqrt(self) -> Self {
        Real(self.0.sqrt())
    }

    fn mul_add(self, a: Self, b: Self) -> Self {
        Real(self.0.mul_add(a.0, b.0))
    }

    fn is_finite(self) -> bool {
        self.0.is_finite()
    }

    fn lt(self, rhs: Self) -> bool {
        self.0 < rhs.0
    }

    fn le(self, rhs: Self) -> bool {
        self.0 <= rhs.0
    }
}

fn to_matrix<const D: usize>(columns: &[Vector<Real, D>; D]) -> SMatrix<f64, D, D> {
    SMatrix::<f64, D, D>::from_fn(|row, col| columns[col].coords[row].0)
}

fn to_columns<const D: usize>(matrix: &SMatrix<f64, D, D>) -> [Vector<Real, D>; D] {
    std::array::from_fn(|col| Vector::new(std::array::from_fn(|row| Real(matrix[(row, col)]))))
}

impl LinearAlgebra for Real {
    fn inverse<const D: usize>(columns: [Vector<Self, D>; D]) -> Option<[Vector<Self, D>; D]> {
        Self::try_inverse(&columns)
    }

    fn orthonormalized<const D: usize>(family: &[Vector<Self, D>]) -> (Vec<Vector<Self, D>>, usize) {
        Self::orthonormalize(family)
    }

    fn try_inverse<const D: usize>(columns: &[Vector<Self, D>; D]) -> Option<[Vector<Self, D>; D]> {
        to_matrix(columns).try_inverse().map(|inverse| to_columns(&inverse))
    }

    fn orthonormalize<const D: usize>(family: &[Vector<Self, D>]) -> (Vec<Vector<Self, D>>, usize) {
        let mut vectors: Vec<SVector<f64, D>> =
            family.iter().map(|v| SVector::from_fn(|row, _| v.coords[row].0)).collect();
        let found = SVector::orthonormalize(&mut vectors);
        (
            vectors.iter().map(|v| Vector::new(std::array::from_fn(|row| Real(v[row])))).collect(),
            found,
        )
    }
}

const EPS: f64 = f64::EPSILON * 64.0;

fn v2(x: f64, y: f64) -> Vector<Real, 2> {
    Vector::new([Real(x), Real(y)])
}

fn v3(x: f64, y: f64, z: f64) -> Vector<Real, 3> {
    Vector::new([Real(x), Real(y), Real(z)])
}

fn coords<const D: usize>(v: &Vector<Real, D>) -> [f64; D] {
    std::array::from_fn(|i| v.coords[i].0)
}

fn near(a: f64, b: f64) -> bool {
    (a - b).abs() <= 1e-9
}

fn near_all<const D: usize>(v: &Vector<Real, D>, expected: [f64; D]) -> bool {
    (0..D).all(|i| near(v.coords[i].0, expected[i]))
}

type Doc = Json<Real>;

/// The document that a JSON text stands for.
fn doc(text: &str) -> Doc {
    from_value(&serde_json::from_str(text).unwrap())
}

fn from_value(value: &serde_json::Value) -> Doc {
    match value {
        serde_json::Value::Null => Json::Null,
        serde_json::Value::Bool(b) => Json::Bool(*b),
        serde_json::Value::Number(n) => match n.as_u64() {
            Some(u) => Json::Natural(u),
            None => Json::Real(Real(n.as_f64().unwrap())),
        },
        serde_json::Value::String(s) => Json::Text(s.clone()),
        serde_json::Value::Array(items) => Json::Array(items.iter().map(from_value).collect()),
        serde_json::Value::Object(members) => {
            Json::Object(members.iter().map(|(k, v)| (k.clone(), from_value(v))).collect())
        }
    }
}

fn to_value(doc: &Doc) -> serde_json::Value {
    match doc {
        Json::Null => serde_json::Value::Null,
        Json::Bool(b) => serde_json::Value::from(*b),
        Json::Natural(n) => serde_json::Value::from(*n),
        Json::Real(x) => serde_json::Value::from(x.0),
        Json::Text(s) => serde_json::Value::from(s.as_str()),
        Json::Array(items) => serde_json::Value::Array(items.iter().map(to_value).collect()),
        Json::Object(members) => serde_json::Value::Object(
            members.iter().map(|(k, v)| (k.clone(), to_value(v))).collect(),
        ),
    }
}

fn error_of<T>(r: Result<T, SceneError>) -> Option<SceneError> {
    r.err()
}

#[test]
fn tags_name_kinds_and_lists() {
    assert_eq!(parse_tag("plane"), Some((0, Kind::Plane)));
    assert_eq!(parse_tag("simplex"), Some((0, Kind::Simplex)));
    assert_eq!(parse_tag("sphere"), Some((0, Kind::Sphere)));
    assert_eq!(parse_tag("cylinder"), Some((0, Kind::Cylinder)));
    assert_eq!(parse_tag("dynamic"), Some((0, Kind::Dynamic)));
    assert_eq!(parse_tag("[]plane"), Some((1, Kind::Plane)));
    assert_eq!(parse_tag("[][][]sphere"), Some((3, Kind::Sphere)));
    for wrong in ["", "[]", "[", "plane[]", "[ ]plane", "Plane", "planes", "[]]plane", "[plane]"] {
        assert_eq!(parse_tag(wrong), None);
    }
    assert_eq!(tag_of(0, Kind::Cylinder), "cylinder");
    assert_eq!(tag_of(2, Kind::Dynamic), "[][]dynamic");
    assert_eq!(Kind::Simplex.as_str(), "simplex");
    assert_eq!(Kind::from_name("sphere"), Some(Kind::Sphere));
    assert_eq!(Kind::from_name("[]sphere"), None);
}

#[test]
fn every_tag_that_is_written_is_read_back() {
    for kind in [Kind::Plane, Kind::Simplex, Kind::Sphere, Kind::Cylinder, Kind::Dynamic] {
        for depth in 0..4 {
            assert_eq!(parse_tag(&tag_of(depth, kind)), Some((depth, kind)));
        }
    }
}

#[test]
fn types_have_their_names() {
    assert_eq!(PlaneMirror::<Real, 2>::json_type(), "plane");
    assert_eq!(Simplex::<Real, 3>::json_type(), "simplex");
    assert_eq!(Sphere::<Real, 2>::json_type(), "sphere");
    assert_eq!(Cylinder::<Real, 3>::json_type(), "cylinder");
    assert_eq!(Scene::<Real, 3>::json_type(), "dynamic");
    assert_eq!(Vec::<Sphere<Real, 2>>::json_type(), "[]sphere");
    assert_eq!(Vec::<Vec<Scene<Real, 2>>>::json_type(), "[][]dynamic");
}

#[test]
fn documents_are_read_by_kind() {
    let d = doc(r#"{"a": 1, "b": [true, null], "c": "text", "d": -2.5}"#);
    assert_eq!(d.get("a").unwrap().as_u64(), Some(1));
    assert_eq!(d.get("a").unwrap().as_real(), Some(Real(1.0)));
    assert_eq!(d.get("d").unwrap().as_real(), Some(Real(-2.5)));
    assert_eq!(d.get("d").unwrap().as_u64(), None);
    assert_eq!(d.get("c").unwrap().as_str(), Some("text"));
    assert!(d.get("c").unwrap().as_real().is_none());
    assert_eq!(d.get("b").unwrap().as_array().unwrap().len(), 2);
    assert!(d.get("b").unwrap().as_str().is_none());
    assert!(d.get("e").is_none());
    assert!(d.get("b").unwrap().get("a").is_none());
    assert!(d.as_array().is_none());
    // the first member of a name counts
    let twice = Json::<Real>::Object(vec![
        ("k".to_string(), Json::Natural(1)),
        ("k".to_string(), Json::Natural(2)),
    ]);
    assert_eq!(twice.get("k").unwrap().as_u64(), Some(1));
}

#[test]
fn vectors_need_the_right_number_of_numbers() {
    let items = |text: &str| match doc(text) {
        Json::Array(items) => items,
        _ => panic!("an array was expected"),
    };
    let v: Option<Vector<Real, 3>> = json_array_to_vector(&items("[1, 2.5, -3]"));
    assert_eq!(coords(&v.unwrap()), [1.0, 2.5, -3.0]);
    assert!(json_array_to_vector::<Real, 3>(&items("[1, 2]")).is_none());
    assert!(json_array_to_vector::<Real, 3>(&items("[1, 2, 3, 4]")).is_none());
    assert!(json_array_to_vector::<Real, 3>(&items(r#"[1, "2", 3]"#)).is_none());
    assert!(json_array_to_vector::<Real, 0>(&items("[]")).is_some());
}

#[test]
fn rays_are_read_and_normalised() {
    let ray: Ray<Real, 2> =
        ray_from_json(&doc(r#"{"origin": [1, 2], "direction": [0, -4]}"#)).unwrap();
    assert_eq!((coords(&ray.origin), coords(&ray.dir)), ([1.0, 2.0], [0.0, -1.0]));
    let error = |text: &str| error_of(ray_from_json::<Real, 2>(&doc(text)));
    assert_eq!(error(r#"{"direction": [0, 1]}"#), Some(SceneError::MissingRayOrigin));
    assert_eq!(error(r#"{"origin": 3, "direction": [0, 1]}"#), Some(SceneError::MissingRayOrigin));
    assert_eq!(error(r#"{"origin": [1, 2]}"#), Some(SceneError::MissingRayDirection));
    assert_eq!(
        error(r#"{"origin": [1, 2, 3], "direction": [0, 1]}"#),
        Some(SceneError::InvalidRayOrigin)
    );
    assert_eq!(
        error(r#"{"origin": [1, 2], "direction": [0]}"#),
        Some(SceneError::InvalidRayDirection)
    );
    assert_eq!(
        error(r#"{"origin": [1, 2], "direction": [0, "1"]}"#),
        Some(SceneError::InvalidRayDirection)
    );
    assert_eq!(
        error(r#"{"origin": [1, 2], "direction": [0, 0]}"#),
        Some(SceneError::DirectionNotNormalizable)
    );
    assert_eq!(error("[]"), Some(SceneError::MissingRayOrigin));
}

#[test]
fn spheres_and_cylinders_are_read() {
    let sphere: Sphere<Real, 2> =
        sphere_from_json(&doc(r#"{"center": [1, 2], "radius": -3}"#)).unwrap();
    assert_eq!((coords(sphere.center()), *sphere.radius()), ([1.0, 2.0], Real(3.0)));
    let error = |text: &str| error_of(sphere_from_json::<Real, 2>(&doc(text)));
    assert_eq!(error(r#"{"radius": 3}"#), Some(SceneError::InvalidCenter));
    assert_eq!(error(r#"{"center": [1], "radius": 3}"#), Some(SceneError::InvalidCenter));
    assert_eq!(error(r#"{"center": [1, 2]}"#), Some(SceneError::InvalidRadius));
    assert_eq!(error(r#"{"center": [1, 2], "radius": "3"}"#), Some(SceneError::InvalidRadius));
    assert_eq!(error(r#"{"center": [1, 2], "radius": 0}"#), Some(SceneError::DegenerateRadius));

    let tube: Cylinder<Real, 3> =
        cylinder_from_json(&doc(r#"{"start": [0, 0, 1], "end": [0, 0, 3], "radius": 2}"#)).unwrap();
    assert_eq!(coords(tube.start()), [0.0, 0.0, 1.0]);
    assert_eq!(coords(tube.segment_dist()), [0.0, 0.0, 2.0]);
    assert_eq!(*tube.radius(), Real(2.0));
    let error = |text: &str| error_of(cylinder_from_json::<Real, 3>(&doc(text)));
    assert_eq!(error(r#"{"end": [0, 0, 3], "radius": 2}"#), Some(SceneError::InvalidSegmentStart));
    assert_eq!(
        error(r#"{"start": [0, 0, 1], "end": [0, 3], "radius": 2}"#),
        Some(SceneError::InvalidSegmentEnd)
    );
    assert_eq!(
        error(r#"{"start": [0, 0, 1], "end": [0, 0, 3]}"#),
        Some(SceneError::InvalidRadius)
    );
    assert_eq!(
        error(r#"{"start": [0, 0, 1], "end": [0, 0, 3], "radius": 0.0}"#),
        Some(SceneError::DegenerateRadius)
    );
}

#[test]
fn flat_mirrors_are_read() {
    let plane: PlaneMirror<Real, 3> =
        plane_from_json(&doc(r#"{"center": [1, 1, 1], "basis": [[1, 0, 0], [0, 2, 0]]}"#)).unwrap();
    assert_eq!(coords(plane.inner_plane().v0()), [1.0, 1.0, 1.0]);
    assert_eq!(coords(&plane.inner_plane().basis()[1]), [0.0, 2.0, 0.0]);
    let error = |text: &str| error_of(plane_from_json::<Real, 3>(&doc(text)));
    assert_eq!(error(r#"{"basis": [[1, 0, 0], [0, 2, 0]]}"#), Some(SceneError::InvalidCenter));
    assert_eq!(error(r#"{"center": [1, 1, 1]}"#), Some(SceneError::InvalidBasis));
    assert_eq!(
        error(r#"{"center": [1, 1, 1], "basis": [[1, 0, 0]]}"#),
        Some(SceneError::InvalidBasis)
    );
    assert_eq!(
        error(r#"{"center": [1, 1, 1], "basis": [[1, 0, 0], [0, 2]]}"#),
        Some(SceneError::InvalidBasisVector)
    );
    assert_eq!(
        error(r#"{"center": [1, 1, 1], "basis": [[1, 0, 0], 5]}"#),
        Some(SceneError::InvalidBasisVector)
    );
    assert_eq!(
        error(r#"{"center": [1, 1, 1], "basis": [[1, 0, 0], [3, 0, 0]]}"#),
        Some(SceneError::FamilyNotFree)
    );

    let segment: LineSegment<Real> =
        simplex_from_json(&doc(r#"{"points": [[1, 0], [0, 1]]}"#)).unwrap();
    assert_eq!(coords(&segment.vertices()[1]), [0.0, 1.0]);
    let error = |text: &str| error_of(simplex_from_json::<Real, 2>(&doc(text)));
    assert_eq!(error(r#"{}"#), Some(SceneError::InvalidPoints));
    assert_eq!(error(r#"{"points": [[1, 0]]}"#), Some(SceneError::InvalidPoints));
    assert_eq!(error(r#"{"points": [[1, 0], [0]]}"#), Some(SceneError::InvalidPoint));
    assert_eq!(error(r#"{"points": [[1, 0], [1, 0]]}"#), Some(SceneError::FamilyNotFree));
}

#[test]
fn scenes_are_read_by_their_type() {
    let scene: Scene<Real, 2> =
        mirror_from_json(&doc(r#"{"type": "sphere", "data": {"center": [4, 0], "radius": 1}}"#))
            .unwrap();
    assert!(matches!(scene, Scene::Sphere(_)));
    let scene: Scene<Real, 2> = mirror_from_json(&doc(
        r#"{"type": "dynamic", "data": {"type": "plane", "data": {"center": [0, 0], "basis": [[0, 1]]}}}"#,
    ))
    .unwrap();
    assert!(matches!(scene, Scene::Plane(_)));
    let scene: Scene<Real, 2> = mirror_from_json(&doc(
        r#"{"type": "[]simplex", "data": [{"points": [[1, 0], [0, 1]]}, {"points": [[0, 1], [-1, 0]]}]}"#,
    ))
    .unwrap();
    match &scene {
        Scene::List(items) => {
            assert_eq!(items.len(), 2);
            assert!(matches!(items[0], Scene::Simplex(_)));
        }
        _ => panic!("a list was expected"),
    }
    let scene: Scene<Real, 3> = mirror_from_json(&doc(
        r#"{"type": "[][]dynamic", "data": [[], [
            {"type": "cylinder", "data": {"start": [0, 0, 0], "end": [0, 0, 1], "radius": 1}},
            {"type": "[]sphere", "data": [{"center": [0, 0, 0], "radius": 1}]}
        ]]}"#,
    ))
    .unwrap();
    match &scene {
        Scene::List(outer) => match (&outer[0], &outer[1]) {
            (Scene::List(empty), Scene::List(inner)) => {
                assert!(empty.is_empty());
                assert!(matches!(inner[0], Scene::Cylinder(_)));
                assert!(matches!(&inner[1], Scene::List(spheres) if spheres.len() == 1));
            }
            _ => panic!("two lists were expected"),
        },
        _ => panic!("a list was expected"),
    }
    let sphere: Scene<Real, 2> =
        nested_from_json(0, Kind::Sphere, &doc(r#"{"center": [4, 0], "radius": 1}"#)).unwrap();
    assert!(matches!(sphere, Scene::Sphere(_)));
}

#[test]
fn scenes_that_are_wrong_are_rejected() {
    let error = |text: &str| error_of(mirror_from_json::<Real, 2>(&doc(text)));
    assert_eq!(error(r#"{"data": {}}"#), Some(SceneError::MissingMirrorType));
    assert_eq!(error(r#"{"type": 3, "data": {}}"#), Some(SceneError::MirrorTypeNotText));
    assert_eq!(error(r#"{"type": "sphere"}"#), Some(SceneError::MissingMirrorData));
    assert_eq!(error(r#"{"type": "torus", "data": {}}"#), Some(SceneError::UnknownMirrorType("torus".to_string())));
    assert_eq!(error(r#"{"type": "[]Plane", "data": []}"#), Some(SceneError::UnknownMirrorType("[]Plane".to_string())));
    assert_eq!(error(r#"{"type": "", "data": {}}"#), Some(SceneError::UnknownMirrorType("".to_string())));
    assert_eq!(error(r#"{"type": "[]sphere", "data": {}}"#), Some(SceneError::NotAnArray));
    assert_eq!(error(r#"{"type": "sphere", "data": []}"#), Some(SceneError::InvalidCenter));
    // cylinders are of space alone
    let tube = r#"{"type": "cylinder", "data": {"start": [0, 0], "end": [0, 1], "radius": 1}}"#;
    assert_eq!(error(tube), Some(SceneError::UnknownMirrorType("cylinder".to_string())));
    assert_eq!(error(r#"{"type": "[]cylinder", "data": []}"#), Some(SceneError::UnknownMirrorType("[]cylinder".to_string())));
    // what is wrong with the first element that something is wrong with
    assert_eq!(
        error(
            r#"{"type": "[]sphere", "data": [
                {"center": [0, 0], "radius": 1},
                {"center": [0, 0], "radius": 0},
                {"center": [0], "radius": 1}
            ]}"#
        ),
        Some(SceneError::DegenerateRadius)
    );
    assert_eq!(
        error(r#"{"type": "dynamic", "data": {"type": "dynamic", "data": {"type": "?"}}}"#),
        Some(SceneError::MissingMirrorData)
    );
}

const SQUARE: &str = r#"{
    "dim": 2,
    "mirror": {"type": "[]simplex", "data": [
        {"points": [[1, 0], [0, 1]]},
        {"points": [[0, 1], [-1, 0]]},
        {"points": [[1, 0], [0, -1]]},
        {"points": [[0, -1], [-1, 0]]}
    ]},
    "rays": [
        {"origin": [0.5, 0.33], "direction": [1, 1.1]},
        {"origin": [0, 0], "direction": [0, 3]}
    ]
}"#;

#[test]
fn simulations_are_read_and_run() {
    let json = doc(SQUARE);
    assert_eq!(dimension(&json), Ok(2));
    let (scene, rays) = deserialize_simulation::<Real, 2>(&json).unwrap();
    assert_eq!(rays.len(), 2);
    assert_eq!(coords(&rays[1].dir), [0.0, 1.0]);
    let mut path = RayPath::new(&scene, rays[0], Real(EPS)).with_reflection_cap(100);
    let points = path.run(1000);
    assert_eq!(points.len(), 100);
    assert_eq!(path.outcome(), Some(Outcome::Exhausted));
    for p in &points {
        let [x, y] = coords(p);
        assert!((x.abs() + y.abs() - 1.0).abs() <= 1e-9);
    }
}

#[test]
fn simulations_that_are_wrong_are_rejected() {
    let error = |text: &str| error_of(deserialize_simulation::<Real, 2>(&doc(text)));
    let sphere = r#"{"type": "sphere", "data": {"center": [0, 0], "radius": 1}}"#;
    assert_eq!(error(r#"{"mirror": 1, "rays": []}"#), Some(SceneError::MissingDim));
    assert_eq!(error(r#"{"dim": 2.5}"#), Some(SceneError::DimNotNatural));
    assert_eq!(error(r#"{"dim": "2"}"#), Some(SceneError::DimNotNatural));
    assert_eq!(error(r#"{"dim": 3}"#), Some(SceneError::WrongDim(2)));
    assert_eq!(error(r#"{"dim": 2, "rays": []}"#), Some(SceneError::MissingMirror));
    assert_eq!(
        error(r#"{"dim": 2, "mirror": {"type": "?", "data": 0}, "rays": 7}"#),
        Some(SceneError::UnknownMirrorType("?".to_string()))
    );
    assert_eq!(
        error(&format!(r#"{{"dim": 2, "mirror": {sphere}}}"#)),
        Some(SceneError::MissingRays)
    );
    assert_eq!(
        error(&format!(r#"{{"dim": 2, "mirror": {sphere}, "rays": {{}}}}"#)),
        Some(SceneError::NotAnArray)
    );
    assert_eq!(
        error(&format!(
            r#"{{"dim": 2, "mirror": {sphere}, "rays": [{{"origin": [0, 0], "direction": [0, 0]}}]}}"#
        )),
        Some(SceneError::DirectionNotNormalizable)
    );
    assert!(deserialize_simulation::<Real, 2>(&doc(&format!(
        r#"{{"dim": 2, "mirror": {sphere}, "rays": []}}"#
    )))
    .is_ok());
    assert_eq!(dimension(&doc(r#"{"dim": 3}"#)), Ok(3));
    assert_eq!(dimension(&doc(r#"{"dim": 4}"#)), Err(SceneError::UnsupportedDim));
    assert_eq!(dimension(&doc(r#"{"dim": -2}"#)), Err(SceneError::DimNotNumber));
    assert_eq!(dimension(&doc(r#"{"dim": "3"}"#)), Err(SceneError::DimNotNumber));
    assert_eq!(dimension(&doc(r#"{}"#)), Err(SceneError::NoDimField));
    assert_eq!(
        error_of(deserialize_simulation::<Real, 3>(&doc(r#"{"dim": 2}"#))),
        Some(SceneError::WrongDim(3))
    );
    assert_eq!(
        error_of(rays_from_json::<Real, 2>(&vec![doc(r#"{"origin": [0, 0]}"#)])),
        Some(SceneError::MissingRayDirection)
    );
}

#[test]
fn errors_say_what_is_wrong() {
    let texts = [
        (SceneError::MissingDim, "dim field expected"),
        (SceneError::DimNotNatural, "dim field must be a positive integer"),
        (SceneError::WrongDim(2), "dimension must be 2"),
        (SceneError::WrongDim(3), "dimension must be 3"),
        (SceneError::WrongDim(0), "dimension must be 0"),
        (SceneError::WrongDim(1207), "dimension must be 1207"),
        (SceneError::WrongDim(usize::MAX), &format!("dimension must be {}", usize::MAX)),
        (SceneError::MissingMirror, "mirror field expected"),
        (SceneError::MissingRays, "ray field expected"),
        (SceneError::NotAnArray, "json value must be an array"),
        (SceneError::MissingRayOrigin, "Missing ray origin"),
        (SceneError::MissingRayDirection, "Missing ray direction"),
        (SceneError::InvalidRayOrigin, "Invalid ray origin"),
        (SceneError::InvalidRayDirection, "Invalid ray direction"),
        (SceneError::DirectionNotNormalizable, "Unable to normalize ray direction"),
        (SceneError::MissingMirrorType, "Missing mirror type"),
        (SceneError::MirrorTypeNotText, "type must be a string"),
        (SceneError::MissingMirrorData, "Missing mirror data"),
        (SceneError::UnknownMirrorType("torus".to_string()), "invalid mirror type torus"),
        (SceneError::UnknownMirrorType("[]".to_string()), "invalid mirror type []"),
        (SceneError::InvalidCenter, "Failed to parse center"),
        (SceneError::InvalidBasis, "Failed to parse basis"),
        (SceneError::InvalidBasisVector, "Failed to parse basis vector"),
        (SceneError::InvalidPoints, "Failed to parse points"),
        (SceneError::InvalidPoint, "Failed to parse point"),
        (SceneError::FamilyNotFree, "the provided family of vectors must be free"),
        (SceneError::InvalidSegmentStart, "Failed to parse segment start"),
        (SceneError::InvalidSegmentEnd, "Failed to parse segment end"),
        (SceneError::InvalidRadius, "Failed to parse radius"),
        (SceneError::DegenerateRadius, "the radius must not be zero"),
        (SceneError::NoDimField, "invalid json: expected a \"dim\" field"),
        (SceneError::DimNotNumber, "\"dim\" field must be a number"),
        (SceneError::UnsupportedDim, "dimension must be 2 or 3"),
    ];
    for (error, text) in texts {
        assert_eq!(error.message(), text);
    }
}

#[test]
fn a_zero_direction_is_rejected_in_words() {
    let json = doc(r#"{"origin": [0.0, 0.0], "direction": [0.0, 0.0]}"#);
    let error = ray_from_json::<Real, 2>(&json).unwrap_err();
    assert_eq!(error.message(), "Unable to normalize ray direction");
}

#[test]
fn an_unknown_type_is_named() {
    let json = doc(r#"{"type": "hyperboloid", "data": {"center": [0, 0], "radius": 1}}"#);
    let error = error_of(mirror_from_json::<Real, 2>(&json)).unwrap();
    assert_eq!(error, SceneError::UnknownMirrorType("hyperboloid".to_string()));
    assert_eq!(error.message(), "invalid mirror type hyperboloid");
    let json = doc(r#"{"type": "sphere", "data": {"center": [4, 0], "radius": 1}}"#);
    assert!(matches!(mirror_from_json::<Real, 2>(&json), Ok(Scene::Sphere(_))));
}

#[test]
fn what_is_written_has_the_layout_that_is_read() {
    let ray = Ray::new_unchecked_dir(v2(1.0, 2.0), v2(0.0, 1.0));
    assert_eq!(
        to_value(&ray_to_json(&ray)),
        serde_json::from_str::<serde_json::Value>(r#"{"origin": [1.0, 2.0], "direction": [0.0, 1.0]}"#)
            .unwrap()
    );
    assert_eq!(to_value(&vector_to_json(&v2(1.0, 2.0))).to_string(), "[1.0,2.0]");
    let sphere = Sphere::new(v2(1.0, 2.0), Real(3.0)).unwrap();
    assert_eq!(to_value(&sphere_to_json(&sphere)).to_string(), r#"{"center":[1.0,2.0],"radius":3.0}"#);
    let tube = Cylinder::new(v3(0.0, 0.0, 1.0), v3(0.0, 0.0, 3.0), Real(2.0)).unwrap();
    assert_eq!(
        to_value(&cylinder_to_json(&tube)).to_string(),
        r#"{"end":[0.0,0.0,3.0],"radius":2.0,"start":[0.0,0.0,1.0]}"#
    );
    let plane = PlaneMirror::try_new([v2(1.0, 1.0), v2(0.0, 2.0)]).unwrap();
    assert_eq!(
        to_value(&plane_to_json(&plane)).to_string(),
        r#"{"basis":[[0.0,2.0]],"center":[1.0,1.0]}"#
    );
    let segment = LineSegment::new([v2(1.0, 0.0), v2(0.0, 1.0)]);
    assert_eq!(to_value(&simplex_to_json(&segment)).to_string(), r#"{"points":[[1.0,0.0],[0.0,1.0]]}"#);
    let scene = Scene::List(vec![Scene::Sphere(sphere), Scene::List(vec![])]);
    assert_eq!(
        to_value(&scene_to_json(&scene)).to_string(),
        r#"{"data":[{"data":{"center":[1.0,2.0],"radius":3.0},"type":"sphere"},{"data":[],"type":"[]dynamic"}],"type":"[]dynamic"}"#
    );
    assert_eq!(
        to_value(&serialize_simulation(&scene, &vec![ray])).to_string(),
        format!(
            r#"{{"dim":2,"mirror":{},"rays":[{{"direction":[0.0,1.0],"origin":[1.0,2.0]}}]}}"#,
            to_value(&scene_to_json(&scene))
        )
    );
}

fn same_scene<const D: usize>(a: &Scene<Real, D>, b: &Scene<Real, D>) -> bool {
    match (a, b) {
        (Scene::Plane(x), Scene::Plane(y)) => (0..D).all(|k| {
            near_all(&x.inner_plane().vectors_raw()[k], coords(&y.inner_plane().vectors_raw()[k]))
        }),
        (Scene::Simplex(x), Scene::Simplex(y)) => {
            (0..D).all(|k| near_all(&x.vertices()[k], coords(&y.vertices()[k])))
        }
        (Scene::Sphere(x), Scene::Sphere(y)) => {
            near_all(x.center(), coords(y.center())) && near(x.radius().0, y.radius().0)
        }
        (Scene::Cylinder(x), Scene::Cylinder(y)) => {
            near_all(x.start(), coords(y.start()))
                && near_all(x.segment_dist(), coords(y.segment_dist()))
                && near(x.radius().0, y.radius().0)
        }
        (Scene::List(x), Scene::List(y)) => {
            x.len() == y.len() && x.iter().zip(y).all(|(p, q)| same_scene(p, q))
        }
        _ => false,
    }
}

#[test]
fn simulation_round_trip() {
    let scene: Scene<Real, 3> = Scene::List(vec![
        Scene::Sphere(Sphere::new(v3(0.1, -0.2, 0.3), Real(1.7)).unwrap()),
        Scene::Cylinder(Cylinder::new(v3(0.3, 0.1, 4.0), v3(-1.1, 2.2, 3.3), Real(0.4)).unwrap()),
        Scene::List(vec![
            Scene::Plane(
                PlaneMirror::try_new([v3(5.0, 0.1, 0.2), v3(0.0, 1.5, 0.3), v3(0.0, -0.7, 2.0)]).unwrap(),
            ),
            Scene::Simplex(Simplex::new([v3(-5.0, 0.7, 0.1), v3(-5.3, 2.0, 0.0), v3(-4.9, 0.0, 3.1)])),
        ]),
    ]);
    let rays = vec![
        Ray::new(v3(0.0, 0.0, 0.0), v3(1.0, 0.3, -0.2)),
        Ray::new(v3(0.5, 0.33, 1.0), v3(-1.0, 1.1, 0.7)),
    ];
    let written = serialize_simulation(&scene, &rays);
    // through the text, as a file would hold it
    let text = serde_json::to_string_pretty(&to_value(&written)).unwrap();
    for json in [written, doc(&text)] {
        assert_eq!(dimension(&json), Ok(3));
        let (scene_back, rays_back) = deserialize_simulation::<Real, 3>(&json).unwrap();
        assert!(same_scene(&scene, &scene_back));
        assert_eq!(rays.len(), rays_back.len());
        for (a, b) in rays.iter().zip(&rays_back) {
            assert!(near_all(&a.origin, coords(&b.origin)));
            assert!(near_all(&a.dir, coords(&b.dir)));
        }
        // the same geometry: the same paths
        for ray in &rays {
            let mut one = RayPath::new(&scene, *ray, Real(EPS));
            let mut other = RayPath::new(&scene_back, *ray, Real(EPS));
            let (p, q) = (one.run(20), other.run(20));
            assert_eq!(p.len(), q.len());
            for (a, b) in p.iter().zip(&q) {
                assert!((0..3).all(|k| (a.coords[k].0 - b.coords[k].0).abs() <= 1e-6));
            }
        }
    }
}

#[test]
fn numbers_are_written_in_decimal_digits() {
    for n in [0usize, 1, 9, 10, 11, 99, 100, 101, 1207, 65_536, usize::MAX] {
        assert_eq!(decimal_text(n), n.to_string());
    }
}
