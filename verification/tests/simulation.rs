use miroir::ctx::SimulationCtx;
use miroir::cylinder::Cylinder;
use miroir::hyperplane::{Hyperplane, HyperplaneBasis};
use miroir::linalg::LinearAlgebra;
use either::Either;
use miroir::mirror::Mirror;
use miroir::path::{loop_index, Outcome, RayPath};
use miroir::plane::PlaneMirror;
use miroir::ray::Ray;
use miroir::scalar::Scalar;
use miroir::simplex::LineSegment;
use miroir::sphere::Sphere;
use miroir::tangent::{Intersection, Plane};
use miroir::vector::Vector;
use nalgebra::{SMatrix, SVector};
use std::rc::Rc;
use std::sync::Arc;

#[derive(Clone, Copy, Debug, PartialEq, PartialOrd)]
struct Real(f64);

impl Scalar for Real {
    fn zero_value() -> Self {
        Real(0.0)
    }

    fn one_value() -> Self {
        Real(1.0)
    }

    fn of_natural(n: u64) -> Self {
        Real(n as f64)
    }

    fn sum(self, rhs: Self) -> Self {
        Real(self.0 + rhs.0)
    }

    fn difference(self, rhs: Self) -> Self {
        Real(self.0 - rhs.0)
    }

    fn product(self, rhs: Self) -> Self {
        Real(self.0 * rhs.0)
    }

    fn quotient(self, rhs: Self) -> Self {
        Real(self.0 / rhs.0)
    }

    fn negation(self) -> Self {
        Real(-self.0)
    }

    fn magnitude(self) -> Self {
        Real(self.0.abs())
    }

    fn root(self) -> Self {
        Real(self.0.sqrt())
    }

    fn fused(self, a: Self, b: Self) -> Self {
        Real(self.0.mul_add(a.0, b.0))
    }

    fn finite(self) -> bool {
        self.0.is_finite()
    }

    fn below(self, rhs: Self) -> bool {
        self.0 < rhs.0
    }

    fn at_most(self, rhs: Self) -> bool {
        self.0 <= rhs.0
    }

    fn lemma_below_is_at_most(_a: Self, _b: Self) {}

    fn lemma_below_excludes_at_least(_a: Self, _b: Self) {}

    fn lemma_below_is_transitive(_a: Self, _b: Self, _c: Self) {}

    fn zero() -> Self {
        Real(0.0)
    }

    fn one() -> Self {
        Real(1.0)
    }

    fn from_natural(n: u64) -> Self {
        Real(n as f64)
    }

    fn add(self, rhs: Self) -> Self {
        Real(self.0 + rhs.0)
    }

    fn sub(self, rhs: Self) -> Self {
        Real(self.0 - rhs.0)
    }

    fn mul(self, rhs: Self) -> Self {
        Real(self.0 * rhs.0)
    }

    fn div(self, rhs: Self) -> Self {
        Real(self.0 / rhs.0)
    }

    fn neg(self) -> Self {
        Real(-self.0)
    }

    fn abs(self) -> Self {
        Real(self.0.abs())
    }

    fn sqrt(self) -> Self {
        Real(self.0.sqrt())
    }

    fn mul_add(self, a: Self, b: Self) -> Self {
        Real(self.0.mul_add(a.0, b.0))
    }

    fn is_finite(self) -> bool {
        self.0.is_finite()
    }

    fn lt(self, rhs: Self) -> bool {
        self.0 < rhs.0
    }

    fn le(self, rhs: Self) -> bool {
        self.0 <= rhs.0
    }
}

fn to_matrix<const D: usize>(columns: &[Vector<Real, D>; D]) -> SMatrix<f64, D, D> {
    SMatrix::<f64, D, D>::from_fn(|row, col| columns[col].coords[row].0)
}

fn to_columns<const D: usize>(matrix: &SMatrix<f64, D, D>) -> [Vector<Real, D>; D] {
    std::array::from_fn(|col| Vector::new(std::array::from_fn(|row| Real(matrix[(row, col)]))))
}

impl LinearAlgebra for Real {
    fn inverse<const D: usize>(columns: [Vector<Self, D>; D]) -> Option<[Vector<Self, D>; D]> {
        Self::try_inverse(&columns)
    }

    fn orthonormalized<const D: usize>(family: &[Vector<Self, D>]) -> (Vec<Vector<Self, D>>, usize) {
        Self::orthonormalize(family)
    }

    fn try_inverse<const D: usize>(columns: &[Vector<Self, D>; D]) -> Option<[Vector<Self, D>; D]> {
        to_matrix(columns).try_inverse().map(|inverse| to_columns(&inverse))
    }

    fn orthonormalize<const D: usize>(family: &[Vector<Self, D>]) -> (Vec<Vector<Self, D>>, usize) {
        let mut vectors: Vec<SVector<f64, D>> =
            family.iter().map(|v| SVector::from_fn(|row, _| v.coords[row].0)).collect();
        let found = SVector::orthonormalize(&mut vectors);
        (
            vectors.iter().map(|v| Vector::new(std::array::from_fn(|row| Real(v[row])))).collect(),
            found,
        )
    }
}

const EPS: f64 = f64::EPSILON * 64.0;

fn v2(x: f64, y: f64) -> Vector<Real, 2> {
    Vector::new([Real(x), Real(y)])
}

fn v3(x: f64, y: f64, z: f64) -> Vector<Real, 3> {
    Vector::new([Real(x), Real(y), Real(z)])
}

fn coords<const D: usize>(v: &Vector<Real, D>) -> [f64; D] {
    std::array::from_fn(|i| v.coords[i].0)
}

fn near(a: f64, b: f64) -> bool {
    (a - b).abs() <= 1e-9
}

fn near_all<const D: usize>(v: &Vector<Real, D>, expected: [f64; D]) -> bool {
    (0..D).all(|i| near(v.coords[i].0, expected[i]))
}

fn normal(x: f64, y: f64) -> Hyperplane<Real, 2> {
    Hyperplane::Normal(v2(x, y))
}

fn normal_of(plane: &Hyperplane<Real, 2>) -> [f64; 2] {
    match plane {
        Hyperplane::Normal(n) => coords(n),
        Hyperplane::Plane(_) => panic!("a normal was expected"),
    }
}

fn square_trap() -> [LineSegment<Real>; 4] {
    [
        LineSegment::new([v2(1.0, 0.0), v2(0.0, 1.0)]),
        LineSegment::new([v2(0.0, 1.0), v2(-1.0, 0.0)]),
        LineSegment::new([v2(1.0, 0.0), v2(0.0, -1.0)]),
        LineSegment::new([v2(0.0, -1.0), v2(-1.0, 0.0)]),
    ]
}

fn facing_mirrors() -> [LineSegment<Real>; 2] {
    [
        LineSegment::new([v2(0.0, -1.0), v2(0.0, 1.0)]),
        LineSegment::new([v2(2.0, 1.0), v2(2.0, -1.0)]),
    ]
}

#[test]
fn accumulator_keeps_the_unique_minimum() {
    let ray = Ray::new_unchecked_dir(v2(0.0, 0.0), v2(1.0, 0.0));
    let mut ctx = SimulationCtx::new(&ray, Real(0.5));
    ctx.add_tangent(Real(3.0), normal(3.0, 0.0));
    ctx.add_tangent(Real(1.0), normal(1.0, 0.0));
    ctx.add_tangent(Real(2.0), normal(2.0, 0.0));
    ctx.add_tangent(Real(0.25), normal(0.25, 0.0));
    ctx.add_tangent(Real(-4.0), normal(-4.0, 0.0));
    let (dist, plane) = ctx.reset_closest().unwrap();
    assert_eq!((dist, normal_of(&plane)), (Real(1.0), [1.0, 0.0]));
    // the context is left empty
    assert!(ctx.reset_closest().is_none());
    assert_eq!(coords(&ctx.ray().origin), [0.0, 0.0]);
}

#[test]
fn accumulator_returns_none_below_the_threshold() {
    let ray = Ray::new_unchecked_dir(v2(0.0, 0.0), v2(1.0, 0.0));
    let mut ctx = SimulationCtx::new(&ray, Real(0.5));
    assert!(ctx.reset_closest().is_none());
    ctx.add_tangent(Real(0.25), normal(1.0, 0.0));
    ctx.add_tangent(Real(0.0), normal(1.0, 0.0));
    ctx.add_tangent(Real(-3.0), normal(1.0, 0.0));
    ctx.add_tangent(Real(f64::NAN), normal(1.0, 0.0));
    assert!(ctx.reset_closest().is_none());
}

#[test]
fn accumulator_accepts_the_threshold_itself() {
    let ray = Ray::new_unchecked_dir(v2(0.0, 0.0), v2(1.0, 0.0));
    let mut ctx = SimulationCtx::new(&ray, Real(0.5));
    ctx.add_tangent(Real(0.5), normal(1.0, 0.0));
    assert_eq!(ctx.reset_closest().unwrap().0, Real(0.5));
    // the threshold is the magnitude of what was given
    let mut ctx = SimulationCtx::new(&ray, Real(-0.5));
    ctx.add_tangent(Real(0.25), normal(1.0, 0.0));
    assert!(ctx.reset_closest().is_none());
}

#[test]
fn accumulator_keeps_the_first_of_equal_distances() {
    let ray = Ray::new_unchecked_dir(v2(0.0, 0.0), v2(1.0, 0.0));
    let mut ctx = SimulationCtx::new(&ray, Real(0.5));
    ctx.add_tangent(Real(1.0), normal(1.0, 0.0));
    ctx.add_tangent(Real(1.0), normal(0.0, 1.0));
    assert_eq!(normal_of(&ctx.reset_closest().unwrap().1), [1.0, 0.0]);
    let tangents = vec![
        (Real(2.0), normal(2.0, 0.0)),
        (Real(1.0), normal(0.0, 1.0)),
        (Real(1.0), normal(1.0, 0.0)),
    ];
    let ctx = SimulationCtx::new(&ray, Real(0.5));
    assert_eq!(normal_of(&ctx.closest(&tangents).unwrap().1), [0.0, 1.0]);
    let mut ctx = SimulationCtx::new(&ray, Real(0.5));
    ctx.add_tangent(Real(0.75), normal(7.0, 0.0));
    ctx.add_tangents(&tangents);
    assert_eq!(normal_of(&ctx.reset_closest().unwrap().1), [7.0, 0.0]);
    let mut ctx = SimulationCtx::new(&ray, Real(0.5));
    ctx.add_normals(&vec![(Real(3.0), v2(3.0, 0.0)), (Real(2.0), v2(2.0, 0.0))]);
    assert_eq!(normal_of(&ctx.reset_closest().unwrap().1), [2.0, 0.0]);
}

#[test]
fn closest_intersection_skips_what_is_behind_or_too_close() {
    let sphere = Sphere::new(v2(0.0, 0.0), Real(1.0)).unwrap();
    let outside = Ray::new_unchecked_dir(v2(3.0, 0.0), v2(-1.0, 0.0));
    let (dist, plane) = outside.closest_intersection(&sphere, Real(EPS)).unwrap();
    assert_eq!((dist, normal_of(&plane)), (Real(2.0), [1.0, 0.0]));
    // on the sphere, going in: the point where the ray stands is not met again
    let on_it = Ray::new_unchecked_dir(v2(1.0, 0.0), v2(-1.0, 0.0));
    let (dist, plane) = on_it.closest_intersection(&sphere, Real(EPS)).unwrap();
    assert_eq!((dist, normal_of(&plane)), (Real(2.0), [-1.0, 0.0]));
    // going away: both points are behind
    let away = Ray::new_unchecked_dir(v2(3.0, 0.0), v2(1.0, 0.0));
    assert!(away.closest_intersection(&sphere, Real(EPS)).is_none());
}

#[test]
fn collections_of_mirrors_pool_their_tangents() {
    let near_one = Sphere::new(v2(4.0, 0.0), Real(1.0)).unwrap();
    let far_one = Sphere::new(v2(10.0, 0.0), Real(1.0)).unwrap();
    let ray = Ray::new_unchecked_dir(v2(0.0, 0.0), v2(1.0, 0.0));
    let eps = Real(EPS);
    let expected = Some(Real(3.0));
    let dist = |found: Option<(Real, Hyperplane<Real, 2>)>| found.map(|t| t.0);
    assert_eq!(dist(ray.closest_intersection(&(near_one, far_one), eps)), expected);
    assert_eq!(dist(ray.closest_intersection(&(far_one, near_one), eps)), expected);
    assert_eq!(dist(ray.closest_intersection(&(far_one, far_one, near_one), eps)), expected);
    assert_eq!(dist(ray.closest_intersection(&((far_one, near_one), far_one), eps)), expected);
    assert_eq!(dist(ray.closest_intersection(&[far_one, near_one], eps)), expected);
    assert_eq!(dist(ray.closest_intersection(&vec![far_one, near_one, far_one], eps)), expected);
    assert_eq!(dist(ray.closest_intersection(&Vec::<Sphere<Real, 2>>::new(), eps)), None);
    assert_eq!(dist(ray.closest_intersection(&Box::new(near_one), eps)), expected);
    assert_eq!(dist(ray.closest_intersection(&Rc::new(near_one), eps)), expected);
    assert_eq!(dist(ray.closest_intersection(&Arc::new(near_one), eps)), expected);
    assert_eq!(dist(ray.closest_intersection(&&near_one, eps)), expected);
    let mut owned = near_one;
    assert_eq!(dist(ray.closest_intersection(&&mut owned, eps)), expected);
    assert_eq!(dist(ray.closest_intersection(&(near_one,), eps)), expected);
    assert_eq!(
        dist(ray.closest_intersection(&(far_one, far_one, far_one, near_one), eps)),
        expected
    );
    let several = [far_one, near_one, far_one];
    assert_eq!(dist(ray.closest_intersection(&several[..2], eps)), expected);
    assert_eq!(dist(ray.closest_intersection(&several[2..], eps)), Some(Real(9.0)));
    assert_eq!(dist(ray.closest_intersection(&far_one, eps)), Some(Real(9.0)));
}

#[test]
fn mirrors_of_different_kinds_make_one_scene() {
    let ray = Ray::new_unchecked_dir(v2(0.0, 0.0), v2(1.0, 0.0));
    let eps = Real(EPS);
    let sphere = Sphere::new(v2(10.0, 0.0), Real(1.0)).unwrap();
    let segment = LineSegment::new([v2(5.0, -1.0), v2(5.0, 1.0)]);
    let plane = PlaneMirror::try_new([v2(7.0, 0.0), v2(0.0, 1.0)]).unwrap();
    let scene = (sphere, segment, plane);
    assert!(near(ray.closest_intersection(&scene, eps).unwrap().0 .0, 5.0));
    let boxed: Vec<Box<dyn Mirror<Real, 2>>> =
        vec![Box::new(sphere), Box::new(plane), Box::new(vec![segment])];
    assert!(near(ray.closest_intersection(&boxed, eps).unwrap().0 .0, 5.0));
    let either: [Either<Sphere<Real, 2>, PlaneMirror<Real, 2>>; 2] =
        [Either::Left(sphere), Either::Right(plane)];
    assert!(near(ray.closest_intersection(&either, eps).unwrap().0 .0, 7.0));
    let tube = Cylinder::new(v3(4.0, 0.0, -1.0), v3(4.0, 0.0, 1.0), Real(1.0)).unwrap();
    let ray = Ray::new_unchecked_dir(v3(0.0, 0.0, 0.0), v3(1.0, 0.0, 0.0));
    assert!(near(ray.closest_intersection(&tube, eps).unwrap().0 .0, 3.0));
}

#[test]
fn ray_path_yields_each_bounce() {
    let mirrors = facing_mirrors();
    let ray = Ray::new(v2(1.0, 0.5), v2(1.0, 0.0));
    let mut path = RayPath::new(&mirrors, ray, Real(EPS));
    assert!(near_all(&path.next().unwrap(), [2.0, 0.5]));
    assert!(near_all(&path.current_ray().dir, [-1.0, 0.0]));
    assert!(near_all(&path.next().unwrap(), [0.0, 0.5]));
    assert!(near_all(&path.next().unwrap(), [2.0, 0.5]));
    assert_eq!(path.outcome(), None);
    assert_eq!(path.max_reflections(), None);
}

#[test]
fn ray_path_diverges_when_nothing_is_met() {
    let mirrors = facing_mirrors();
    let ray = Ray::new(v2(1.0, 0.0), v2(0.0, 1.0));
    let mut path = RayPath::new(&mirrors, ray, Real(EPS));
    assert!(path.next().is_none());
    assert_eq!(path.outcome(), Some(Outcome::Diverged));
    assert!(near_all(&path.current_ray().dir, [0.0, 1.0]));
    // a path that has ended stays as it is
    assert!(path.next().is_none());
    assert_eq!(path.outcome(), Some(Outcome::Diverged));
    // one bounce, then out
    let ray = Ray::new(v2(1.0, 0.0), v2(1.0, 0.9));
    let mut path = RayPath::new(&mirrors, ray, Real(EPS)).with_reflection_cap(10);
    let points = path.run(100);
    assert_eq!(points.len(), 1);
    assert!(near_all(&points[0], [2.0, 0.9]));
    assert_eq!(path.outcome(), Some(Outcome::Diverged));
    assert_eq!(path.max_reflections(), Some(9));
}

#[test]
fn ray_path_is_exhausted_at_the_cap() {
    let mirrors = facing_mirrors();
    let ray = Ray::new(v2(1.0, 0.0), v2(1.0, 0.0));
    let mut path = RayPath::new(&mirrors, ray, Real(EPS)).with_reflection_cap(5);
    let points = path.run(1000);
    assert_eq!(points.len(), 5);
    assert_eq!(path.outcome(), Some(Outcome::Exhausted));
    assert_eq!(path.max_reflections(), Some(0));
    let mut none = RayPath::new(&mirrors, ray, Real(EPS)).with_reflection_cap(0);
    assert!(none.next().is_none());
    assert_eq!(none.outcome(), Some(Outcome::Exhausted));
}

#[test]
fn ray_path_run_stops_after_the_steps_asked_for() {
    let mirrors = facing_mirrors();
    let ray = Ray::new(v2(1.0, 0.0), v2(1.0, 0.0));
    let mut path = RayPath::new(&mirrors, ray, Real(EPS));
    assert_eq!(path.run(7).len(), 7);
    assert_eq!(path.outcome(), None);
    assert_eq!(path.run(0).len(), 0);
}

#[test]
fn square_trap_scenario() {
    let mirrors = square_trap();
    let ray = Ray::new(v2(0.5, 0.33), v2(1.0, 1.1));
    let mut path = RayPath::new(&mirrors, ray, Real(EPS)).with_reflection_cap(100);
    let points = path.run(1000);
    assert_eq!(points.len(), 100);
    assert_eq!(path.outcome(), Some(Outcome::Exhausted));
    for p in &points {
        let [x, y] = coords(p);
        assert!((x.abs() + y.abs() - 1.0).abs() <= 1e-9);
    }
    assert!((path.current_ray().dir.norm().0 - 1.0).abs() <= EPS);
}

#[test]
fn square_trap_direction_keeps_norm_one() {
    let mirrors = square_trap();
    let ray = Ray::new(v2(0.5, 0.33), v2(1.0, 1.1));
    let mut path = RayPath::new(&mirrors, ray, Real(EPS));
    assert!((path.current_ray().dir.norm().0 - 1.0).abs() <= EPS);
    for _ in 0..200 {
        assert!(path.next().is_some());
        assert!((path.current_ray().dir.norm().0 - 1.0).abs() <= EPS);
    }
}

#[test]
fn parallel_mirror_loop_scenario() {
    let mirrors = facing_mirrors();
    let ray = Ray::new(v2(1.0, 0.0), v2(1.0, 0.0));
    let mut path = RayPath::new(&mirrors, ray, Real(EPS)).with_loop_detection();
    let points = path.run(10);
    assert_eq!(path.outcome(), Some(Outcome::LoopDetected { start: 0 }));
    assert_eq!(points.len(), 3);
    assert!(near_all(&points[2], [2.0, 0.0]));
    assert!(path.next().is_none());
}

#[test]
fn loop_detection_works_under_a_cap() {
    let mirrors = facing_mirrors();
    let ray = Ray::new(v2(0.5, 0.25), v2(-1.0, 0.0));
    let mut path =
        RayPath::new(&mirrors, ray, Real(EPS)).with_loop_detection().with_reflection_cap(50);
    let points = path.run(100);
    assert_eq!(points.len(), 3);
    assert_eq!(path.outcome(), Some(Outcome::LoopDetected { start: 0 }));
    assert_eq!(path.max_reflections(), Some(47));
    // the cap comes first where it is lower
    let mut path =
        RayPath::new(&mirrors, ray, Real(EPS)).with_loop_detection().with_reflection_cap(2);
    assert_eq!(path.run(100).len(), 2);
    assert_eq!(path.outcome(), Some(Outcome::Exhausted));
}

#[test]
fn loop_index_compares_points_and_directions() {
    let path = [v2(1.0, 0.0), v2(2.0, 0.0), v2(0.0, 0.0)];
    let eps = Real(EPS);
    assert_eq!(loop_index(&path, &v2(2.0, 0.0), eps), Some(0));
    // the same point, reached from elsewhere
    let path = [v2(1.0, 0.0), v2(2.0, 0.0), v2(2.0, -5.0)];
    assert_eq!(loop_index(&path, &v2(2.0, 0.0), eps), None);
    // another point, reached along the same direction
    let path = [v2(1.0, 0.0), v2(2.0, 0.0), v2(0.0, 0.0)];
    assert_eq!(loop_index(&path, &v2(3.0, 0.0), eps), None);
    // too short a path to hold a loop
    assert_eq!(loop_index(&path[..2], &v2(2.0, 0.0), eps), None);
    assert_eq!(loop_index(&path[..0], &v2(2.0, 0.0), eps), None);
    // the first of several
    let path = [v2(1.0, 0.0), v2(2.0, 0.0), v2(0.0, 0.0), v2(2.0, 0.0), v2(0.0, 0.0)];
    assert_eq!(loop_index(&path, &v2(2.0, 0.0), eps), Some(0));
    let path = [v2(5.0, 5.0), v2(1.0, 0.0), v2(2.0, 0.0), v2(0.0, 0.0)];
    assert_eq!(loop_index(&path, &v2(2.0, 0.0), eps), Some(1));
}

#[test]
fn tangents_given_by_a_point_are_met_where_the_ray_crosses_them() {
    let wall = Plane { intersection: Intersection::StartingPoint(v2(2.0, 5.0)), direction: normal(1.0, 0.0) };
    let across = Ray::new_unchecked_dir(v2(0.0, 0.0), v2(1.0, 0.0));
    let along = Ray::new_unchecked_dir(v2(0.0, 0.0), v2(0.0, 1.0));
    let slanted = Ray::new(v2(0.0, 0.0), v2(-1.0, 1.0));
    assert_eq!(wall.try_ray_intersection(&across), Some(Real(2.0)));
    assert_eq!(wall.try_ray_intersection(&along), None);
    assert!(near(wall.try_ray_intersection(&slanted).unwrap().0, -(8.0f64.sqrt())));
    assert_eq!(normal(1.0, 0.0).try_ray_intersection(&v2(-3.0, 0.0), &across), Some(Real(-3.0)));
    let known = Plane { intersection: Intersection::Distance(Real(7.0)), direction: normal(1.0, 0.0) };
    assert_eq!(known.try_ray_intersection(&along), Some(Real(7.0)));
    // the same wall, given by a vector that spans it
    let (_, ortho) = HyperplaneBasis::try_new([v2(0.0, 0.0), v2(0.0, 3.0)]).unwrap();
    let spanned =
        Plane { intersection: Intersection::StartingPoint(v2(2.0, 5.0)), direction: Hyperplane::Plane(ortho) };
    assert!(near(spanned.try_ray_intersection(&across).unwrap().0, 2.0));
    assert_eq!(spanned.try_ray_intersection(&along), None);
}

#[test]
fn tangents_given_by_a_point_are_reported_with_their_distance() {
    let wall = Plane { intersection: Intersection::StartingPoint(v2(2.0, 5.0)), direction: normal(1.0, 0.0) };
    let nearer = Plane { intersection: Intersection::StartingPoint(v2(1.0, 0.0)), direction: normal(-1.0, 0.0) };
    let across = Ray::new_unchecked_dir(v2(0.0, 0.0), v2(1.0, 0.0));
    let mut ctx = SimulationCtx::new(&across, Real(EPS));
    ctx.add_plane(wall);
    assert!(ctx.try_add_plane(nearer));
    let (dist, plane) = ctx.reset_closest().unwrap();
    assert_eq!((dist, normal_of(&plane)), (Real(1.0), [-1.0, 0.0]));
    let along = Ray::new_unchecked_dir(v2(0.0, 0.0), v2(0.0, 1.0));
    let mut ctx = SimulationCtx::new(&along, Real(EPS));
    assert!(!ctx.try_add_plane(wall));
    assert!(ctx.reset_closest().is_none());
}
