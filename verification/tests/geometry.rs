use miroir::cylinder::Cylinder;
use miroir::equal::{same, same_family};
use miroir::hyperplane::{Hyperplane, HyperplaneBasis};
use miroir::linalg::{mat_vec, LinearAlgebra};
use miroir::plane::{inside_distance, PlaneMirror};
use miroir::ray::Ray;
use miroir::scalar::{recip, try_sqrt, Scalar};
use miroir::simplex::{footprint_distance, LineSegment, Triangle};
use miroir::sphere::Sphere;
use miroir::tangent::{Intersection, Plane};
use miroir::vector::{VMulAdd, Vector};
use nalgebra::{SMatrix, SVector};

#[derive(Clone, Copy, Debug, PartialEq, PartialOrd)]
struct Real(f64);

impl Scalar for Real {
    fn zero_value() -> Self {
        Real(0.0)
    }

    fn one_value() -> Self {
        Real(1.0)
    }

    fn of_natural(n: u64) -> Self {
        Real(n as f64)
    }

    fn sum(self, rhs: Self) -> Self {
        Real(self.0 + rhs.0)
    }

    fn difference(self, rhs: Self) -> Self {
        Real(self.0 - rhs.0)
    }

    fn product(self, rhs: Self) -> Self {
        Real(self.0 * rhs.0)
    }

    fn quotient(self, rhs: Self) -> Self {
        Real(self.0 / rhs.0)
    }

    fn negation(self) -> Self {
        Real(-self.0)
    }

    fn magnitude(self) -> Self {
        Real(self.0.abs())
    }

    fn root(self) -> Self {
        Real(self.0.sqrt())
    }

    fn fused(self, a: Self, b: Self) -> Self {
        Real(self.0.mul_add(a.0, b.0))
    }

    fn finite(self) -> bool {
        self.0.is_finite()
    }

    fn below(self, rhs: Self) -> bool {
        self.0 < rhs.0
    }

    fn at_most(self, rhs: Self) -> bool {
        self.0 <= rhs.0
    }

    fn lemma_below_is_at_most(_a: Self, _b: Self) {}

    fn lemma_below_excludes_at_least(_a: Self, _b: Self) {}

    fn lemma_below_is_transitive(_a: Self, _b: Self, _c: Self) {}

    fn zero() -> Self {
        Real(0.0)
    }

    fn one() -> Self {
        Real(1.0)
    }

    fn from_natural(n: u64) -> Self {
        Real(n as f64)
    }

    fn add(self, rhs: Self) -> Self {
        Real(self.0 + rhs.0)
    }

    fn sub(self, rhs: Self) -> Self {
        Real(self.0 - rhs.0)
    }

    fn mul(self, rhs: Self) -> Self {
        Real(self.0 * rhs.0)
    }

    fn div(self, rhs: Self) -> Self {
        Real(self.0 / rhs.0)
    }

    fn neg(self) -> Self {
        Real(-self.0)
    }

    fn abs(self) -> Self {
        Real(self.0.abs())
    }

    fn sqrt(self) -> Self {
        Real(self.0.sqrt())
    }

    fn mul_add(self, a: Self, b: Self) -> Self {
        Real(self.0.mul_add(a.0, b.0))
    }

    fn is_finite(self) -> bool {
        self.0.is_finite()
    }

    fn lt(self, rhs: Self) -> bool {
        self.0 < rhs.0
    }

    fn le(self, rhs: Self) -> bool {
        self.0 <= rhs.0
    }
}

fn to_matrix<const D: usize>(columns: &[Vector<Real, D>; D]) -> SMatrix<f64, D, D> {
    SMatrix::<f64, D, D>::from_fn(|row, col| columns[col].coords[row].0)
}

fn to_columns<const D: usize>(matrix: &SMatrix<f64, D, D>) -> [Vector<Real, D>; D] {
    std::array::from_fn(|col| Vector::new(std::array::from_fn(|row| Real(matrix[(row, col)]))))
}

impl LinearAlgebra for Real {
    fn inverse<const D: usize>(columns: [Vector<Self, D>; D]) -> Option<[Vector<Self, D>; D]> {
        Self::try_inverse(&columns)
    }

    fn orthonormalized<const D: usize>(family: &[Vector<Self, D>]) -> (Vec<Vector<Self, D>>, usize) {
        Self::orthonormalize(family)
    }

    fn try_inverse<const D: usize>(columns: &[Vector<Self, D>; D]) -> Option<[Vector<Self, D>; D]> {
        to_matrix(columns).try_inverse().map(|inverse| to_columns(&inverse))
    }

    fn orthonormalize<const D: usize>(family: &[Vector<Self, D>]) -> (Vec<Vector<Self, D>>, usize) {
        let mut vectors: Vec<SVector<f64, D>> =
            family.iter().map(|v| SVector::from_fn(|row, _| v.coords[row].0)).collect();
        let found = SVector::orthonormalize(&mut vectors);
        (
            vectors.iter().map(|v| Vector::new(std::array::from_fn(|row| Real(v[row])))).collect(),
            found,
        )
    }
}

const EPS: f64 = f64::EPSILON * 64.0;

fn v2(x: f64, y: f64) -> Vector<Real, 2> {
    Vector::new([Real(x), Real(y)])
}

fn v3(x: f64, y: f64, z: f64) -> Vector<Real, 3> {
    Vector::new([Real(x), Real(y), Real(z)])
}

fn coords<const D: usize>(v: &Vector<Real, D>) -> [f64; D] {
    std::array::from_fn(|i| v.coords[i].0)
}

fn near(a: f64, b: f64) -> bool {
    (a - b).abs() <= 1e-9
}

fn near_all<const D: usize>(v: &Vector<Real, D>, expected: [f64; D]) -> bool {
    (0..D).all(|i| near(v.coords[i].0, expected[i]))
}

#[test]
fn vector_dot_product_sums_coordinate_products() {
    let a = v3(1.0, 2.0, 3.0);
    let b = v3(4.0, -5.0, 6.0);
    assert_eq!(a.dot(&b), Real(12.0));
    assert_eq!(a.norm_squared(), Real(14.0));
    assert_eq!(v2(3.0, 4.0).norm(), Real(5.0));
}

#[test]
fn vector_arithmetic_is_coordinatewise() {
    let a = v3(1.0, 2.0, 3.0);
    let b = v3(10.0, 20.0, 30.0);
    assert_eq!(coords(&a.add(&b)), [11.0, 22.0, 33.0]);
    assert_eq!(coords(&b.sub(&a)), [9.0, 18.0, 27.0]);
    assert_eq!(coords(&a.scale(Real(2.0))), [2.0, 4.0, 6.0]);
    assert_eq!(coords(&b.unscale(Real(10.0))), [1.0, 2.0, 3.0]);
    assert_eq!(coords(&a.neg()), [-1.0, -2.0, -3.0]);
    assert_eq!(coords(&Vector::<Real, 3>::zeros()), [0.0, 0.0, 0.0]);
    assert_eq!(a.dim(), 3);
    assert_eq!(a.get(1), Real(2.0));
    assert_eq!(coords(&a.clone()), [1.0, 2.0, 3.0]);
}

#[test]
fn vector_mul_add_scales_then_adds() {
    let a = v3(1.0, 2.0, 3.0);
    let b = v3(10.0, 20.0, 30.0);
    let r = a.mul_add(Real(2.0), &b);
    assert_eq!(coords(&r), [12.0, 24.0, 36.0]);
}

#[test]
fn vector_normalize_divides_by_norm() {
    assert_eq!(coords(&v2(3.0, 4.0).normalize()), [0.6, 0.8]);
    assert_eq!(coords(&v2(0.0, -2.0).try_normalize(Real(0.0)).unwrap()), [0.0, -1.0]);
    assert!(v2(0.0, 0.0).try_normalize(Real(0.0)).is_none());
    assert!(v2(3.0, 4.0).try_normalize(Real(5.0)).is_none());
    assert!(v2(3.0, 4.0).try_normalize(Real(4.5)).is_some());
}

#[test]
fn vector_agrees_with_nalgebra() {
    let a = v3(0.3, -1.7, 2.9);
    let b = v3(-4.1, 0.25, 1.5);
    let na = SVector::<f64, 3>::new(0.3, -1.7, 2.9);
    let nb = SVector::<f64, 3>::new(-4.1, 0.25, 1.5);
    assert!(near(a.dot(&b).0, na.dot(&nb)));
    assert!(near(a.norm().0, na.norm()));
    let n = na.normalize();
    assert!(near_all(&a.normalize(), [n[0], n[1], n[2]]));
}

#[test]
fn scalar_helpers() {
    assert_eq!(recip(Real(4.0)), Real(0.25));
    assert_eq!(try_sqrt(Real(9.0)), Some(Real(3.0)));
    assert_eq!(try_sqrt(Real(0.0)), Some(Real(0.0)));
    assert_eq!(try_sqrt(Real(-1.0)), None);
    assert_eq!(try_sqrt(Real(f64::NAN)), None);
}

#[test]
fn mat_vec_multiplies_columns_by_coordinates() {
    // columns (1, 2) and (3, 4): the matrix [[1, 3], [2, 4]]
    let columns = [v2(1.0, 2.0), v2(3.0, 4.0)];
    assert_eq!(coords(&mat_vec(&columns, &v2(10.0, 100.0))), [310.0, 420.0]);
}

#[test]
fn ray_constructors_normalise_or_reject() {
    let ray = Ray::try_new(v2(1.0, 1.0), v2(0.0, 5.0)).unwrap();
    assert_eq!(coords(&ray.origin), [1.0, 1.0]);
    assert_eq!(coords(&ray.dir), [0.0, 1.0]);
    assert!(Ray::try_new(v2(1.0, 1.0), v2(0.0, 0.0)).is_none());
    assert!(Ray::try_new(v2(1.0, 1.0), v2(f64::NAN, 1.0)).is_none());
    assert!(Ray::try_new(v2(1.0, 1.0), v2(f64::INFINITY, 1.0)).is_none());
    let ray = Ray::new(v2(0.0, 0.0), v2(3.0, 4.0));
    assert_eq!(coords(&ray.dir), [0.6, 0.8]);
    let ray = Ray::new_unchecked_dir(v2(0.0, 0.0), v2(3.0, 4.0));
    assert_eq!(coords(&ray.dir), [3.0, 4.0]);
}

#[test]
fn ray_direction_has_norm_one_after_construction() {
    for dir in [v3(1.0, 1.1, 0.0), v3(-7.0, 0.001, 3.0), v3(1e-8, 2e-8, -1e-8)] {
        let ray = Ray::try_new(v3(0.5, 0.33, 0.0), dir).unwrap();
        assert!((ray.dir.norm().0 - 1.0).abs() <= EPS);
    }
}

#[test]
fn ray_at_and_advance_move_along_the_direction() {
    let mut ray = Ray::new_unchecked_dir(v2(1.0, 2.0), v2(0.0, 1.0));
    assert_eq!(coords(&ray.at(Real(3.0))), [1.0, 5.0]);
    assert_eq!(coords(&ray.at(Real(-3.0))), [1.0, -1.0]);
    ray.advance(Real(2.0));
    assert_eq!(coords(&ray.origin), [1.0, 4.0]);
    assert_eq!(coords(&ray.dir), [0.0, 1.0]);
}

#[test]
fn reflect_off_normal() {
    let mirror = Hyperplane::Normal(v3(1.0, 0.0, 0.0));
    assert_eq!(coords(&mirror.reflect(&v3(-1.0, 0.0, 0.0))), [1.0, 0.0, 0.0]);
    assert_eq!(coords(&mirror.reflect(&v3(-1.0, 2.0, 3.0))), [1.0, 2.0, 3.0]);
    assert_eq!(coords(&mirror.reflect_unit(&v3(-1.0, 0.0, 0.0))), [1.0, 0.0, 0.0]);
    assert_eq!(coords(&mirror.reflect_unit_optimised(&v3(-1.0, 0.0, 0.0))), [1.0, 0.0, 0.0]);
}

#[test]
fn reflect_off_plane() {
    // the plane z = 0, spanned by the x and y axes
    let (_, ortho) =
        HyperplaneBasis::try_new([v3(5.0, 5.0, 5.0), v3(2.0, 0.0, 0.0), v3(1.0, 3.0, 0.0)]).unwrap();
    let mirror = Hyperplane::Plane(ortho);
    assert!(near_all(&mirror.reflect(&v3(1.0, 2.0, 3.0)), [1.0, 2.0, -3.0]));
    assert!(near_all(&ortho.project(&v3(1.0, 2.0, 3.0)), [1.0, 2.0, 0.0]));
    assert!(near_all(
        &ortho.closest_point_to_plane(&v3(0.0, 0.0, 1.0), &v3(4.0, 5.0, 6.0)),
        [4.0, 5.0, 1.0]
    ));
}

#[test]
fn reflection_is_an_involution() {
    let n = v3(1.0, -2.0, 0.5).normalize();
    let (_, ortho) =
        HyperplaneBasis::try_new([v3(0.0, 0.0, 0.0), v3(1.0, 1.0, 0.0), v3(0.0, 1.0, 1.0)]).unwrap();
    for mirror in [Hyperplane::Normal(n), Hyperplane::Plane(ortho)] {
        for v in [v3(0.3, -1.7, 2.9), v3(1.0, 0.0, 0.0), v3(-4.0, 4.0, 0.125)] {
            let back = mirror.reflect(&mirror.reflect(&v));
            assert!(near_all(&back, coords(&v)));
            assert!(near(mirror.reflect(&v).norm().0, v.norm().0));
        }
    }
}

#[test]
fn hyperplane_basis_rejects_a_family_that_is_not_free() {
    assert!(HyperplaneBasis::try_new([v3(0.0, 0.0, 0.0), v3(1.0, 2.0, 3.0), v3(2.0, 4.0, 6.0)])
        .is_none());
    assert!(HyperplaneBasis::try_new([v2(1.0, 1.0), v2(0.0, 0.0)]).is_none());
    let (plane, ortho) = HyperplaneBasis::try_new([v2(1.0, 1.0), v2(0.0, 3.0)]).unwrap();
    assert_eq!(coords(plane.v0()), [1.0, 1.0]);
    assert_eq!(coords(&plane.basis()[0]), [0.0, 3.0]);
    assert_eq!(plane.basis().len(), 1);
    assert_eq!(coords(&plane.vectors_raw()[1]), [0.0, 3.0]);
    assert_eq!(coords(&ortho.as_basis().basis()[0]), [0.0, 1.0]);
    assert_eq!(coords(ortho.as_basis().v0()), [1.0, 1.0]);
}

#[test]
fn hyperplane_basis_anchor_can_be_replaced() {
    let (mut plane, mut ortho) = HyperplaneBasis::try_new([v2(1.0, 1.0), v2(0.0, 3.0)]).unwrap();
    *plane.v0_mut() = v2(7.0, 8.0);
    *ortho.v0_mut() = v2(7.0, 8.0);
    assert_eq!(coords(plane.v0()), [7.0, 8.0]);
    assert_eq!(coords(&plane.basis()[0]), [0.0, 3.0]);
    assert_eq!(coords(ortho.as_basis().v0()), [7.0, 8.0]);
}

#[test]
fn intersection_coordinates_solve_the_system() {
    // the line x = 2 of the plane, met by a ray from the origin along (1, 1) / sqrt 2
    let (plane, _) = HyperplaneBasis::try_new([v2(2.0, 0.0), v2(0.0, 4.0)]).unwrap();
    let ray = Ray::new(v2(0.0, 0.0), v2(1.0, 1.0));
    let c = plane.intersection_coordinates(&ray, plane.v0()).unwrap();
    assert!(near(c.coords[0].0, 8.0f64.sqrt()));
    assert!(near(c.coords[1].0, 0.5));
    // a ray parallel to the line never meets it
    let ray = Ray::new(v2(0.0, 0.0), v2(0.0, 1.0));
    assert!(plane.intersection_coordinates(&ray, plane.v0()).is_none());
}

#[test]
fn sphere_scenario() {
    let sphere = Sphere::new(v3(0.0, 0.0, 0.0), Real(1.0)).unwrap();
    let ray = Ray::new_unchecked_dir(v3(3.0, 0.0, 0.0), v3(-1.0, 0.0, 0.0));
    assert_eq!(sphere.intersections(&ray), Some([Real(2.0), Real(4.0)]));
    let [(d1, n1), (d2, n2)] = sphere.tangents_at_intersections(&ray).unwrap();
    assert_eq!((d1, coords(&n1)), (Real(2.0), [1.0, 0.0, 0.0]));
    assert_eq!((d2, coords(&n2)), (Real(4.0), [-1.0, 0.0, 0.0]));
    let reflected = Hyperplane::Normal(n1).reflect(&ray.dir);
    assert_eq!(coords(&reflected), [1.0, 0.0, 0.0]);
}

#[test]
fn sphere_points_are_at_radius_from_center() {
    let center = v3(0.5, -1.0, 2.0);
    let sphere = Sphere::new(center, Real(1.5)).unwrap();
    for target in [v3(0.5, -1.0, 2.0), v3(1.0, -0.5, 2.5), v3(0.0, -2.0, 1.2)] {
        let origin = v3(6.0, 5.0, -4.0);
        let ray = Ray::new(origin, target.sub(&origin));
        let tangents = sphere.tangents_at_intersections(&ray).unwrap();
        for (d, n) in tangents {
            let p = ray.at(d);
            assert!(near(p.sub(&center).norm().0, 1.5));
            assert!(near(n.norm().0, 1.0));
        }
    }
}

#[test]
fn sphere_missed_or_grazed() {
    let sphere = Sphere::new(v2(0.0, 0.0), Real(1.0)).unwrap();
    let miss = Ray::new_unchecked_dir(v2(-3.0, 2.0), v2(1.0, 0.0));
    assert_eq!(sphere.intersections(&miss), None);
    assert!(sphere.tangents_at_intersections(&miss).is_none());
    let graze = Ray::new_unchecked_dir(v2(-3.0, 1.0), v2(1.0, 0.0));
    assert_eq!(sphere.intersections(&graze), Some([Real(3.0), Real(3.0)]));
}

#[test]
fn sphere_radius_is_kept_as_a_magnitude() {
    assert!(Sphere::new(v2(0.0, 0.0), Real(0.0)).is_none());
    assert!(Sphere::new(v2(0.0, 0.0), Real(f64::NAN)).is_none());
    let mut sphere = Sphere::new(v2(1.0, 2.0), Real(-2.0)).unwrap();
    assert_eq!(*sphere.radius(), Real(2.0));
    assert_eq!(coords(sphere.center()), [1.0, 2.0]);
    sphere.set_radius(Real(-3.0));
    assert_eq!(*sphere.radius(), Real(3.0));
    let ray = Ray::new_unchecked_dir(v2(-9.0, 2.0), v2(1.0, 0.0));
    assert_eq!(sphere.intersections(&ray), Some([Real(7.0), Real(13.0)]));
}

#[test]
fn cylinder_rejects_zero_radius() {
    assert!(Cylinder::new(v3(0.0, 0.0, 0.0), v3(0.0, 0.0, 1.0), Real(0.0)).is_none());
    let c = Cylinder::new(v3(0.0, 0.0, 0.0), v3(0.0, 0.0, 2.0), Real(-0.5)).unwrap();
    assert_eq!(*c.radius(), Real(0.5));
    assert_eq!(coords(c.start()), [0.0, 0.0, 0.0]);
    assert_eq!(coords(c.segment_dist()), [0.0, 0.0, 2.0]);
    let [a, b] = c.line_segment();
    assert_eq!((coords(&a), coords(&b)), ([0.0, 0.0, 0.0], [0.0, 0.0, 2.0]));
}

#[test]
fn cylinder_tangents_across_the_axis() {
    let c = Cylinder::new(v3(0.0, 0.0, 0.0), v3(0.0, 0.0, 2.0), Real(1.0)).unwrap();
    let ray = Ray::new_unchecked_dir(v3(-3.0, 0.0, 1.0), v3(1.0, 0.0, 0.0));
    let tangents = c.tangents_at_intersections(&ray).to_vec();
    assert_eq!(tangents.len(), 2);
    assert_eq!((tangents[0].0, coords(&tangents[0].1)), (Real(2.0), [-1.0, 0.0, 0.0]));
    assert_eq!((tangents[1].0, coords(&tangents[1].1)), (Real(4.0), [1.0, 0.0, 0.0]));
}

#[test]
fn cylinder_is_bounded_by_its_segment() {
    let c = Cylinder::new(v3(0.0, 0.0, 0.0), v3(0.0, 0.0, 2.0), Real(1.0)).unwrap();
    // beyond the second end of the axis
    let above = Ray::new_unchecked_dir(v3(-3.0, 0.0, 2.5), v3(1.0, 0.0, 0.0));
    assert!(c.tangents_at_intersections(&above).is_empty());
    // beside the tube
    let beside = Ray::new_unchecked_dir(v3(-3.0, 1.5, 1.0), v3(1.0, 0.0, 0.0));
    assert!(c.tangents_at_intersections(&beside).is_empty());
    // entering through the side, leaving beyond the end
    let slanted = Ray::new(v3(-2.0, 0.0, 0.5), v3(1.0, 0.0, 1.0));
    let tangents = c.tangents_at_intersections(&slanted).to_vec();
    assert_eq!(tangents.len(), 1);
    assert!(near(tangents[0].0 .0, 2.0f64.sqrt()));
    assert!(near_all(&tangents[0].1, [-1.0, 0.0, 0.0]));
}

#[test]
fn cylinder_tangents_are_counted_and_read_one_by_one() {
    let c = Cylinder::new(v3(0.0, 0.0, 0.0), v3(0.0, 0.0, 2.0), Real(1.0)).unwrap();
    let across = c.tangents_at_intersections(&Ray::new_unchecked_dir(v3(-3.0, 0.0, 1.0), v3(1.0, 0.0, 0.0)));
    assert_eq!((across.len(), across.is_empty()), (2, false));
    assert_eq!((across.get(0).0, coords(&across.get(0).1)), (Real(2.0), [-1.0, 0.0, 0.0]));
    assert_eq!((across.get(1).0, coords(&across.get(1).1)), (Real(4.0), [1.0, 0.0, 0.0]));
    // in through the far end, out through the side: the second root alone
    let leaving = c.tangents_at_intersections(&Ray::new(v3(-2.0, 0.0, 3.5), v3(1.0, 0.0, -1.0)));
    assert_eq!(leaving.len(), 1);
    assert!(near(leaving.get(0).0 .0, 3.0 * 2.0f64.sqrt()));
    assert!(near_all(&leaving.get(0).1, [1.0, 0.0, 0.0]));
    assert_eq!(leaving.to_vec().len(), 1);
    let beside = c.tangents_at_intersections(&Ray::new_unchecked_dir(v3(-3.0, 1.5, 1.0), v3(1.0, 0.0, 0.0)));
    assert_eq!((beside.len(), beside.is_empty()), (0, true));
    assert!(beside.to_vec().is_empty());
}

#[test]
fn cylinder_set_radius_changes_the_tube() {
    let mut c = Cylinder::new(v3(0.0, 0.0, 0.0), v3(0.0, 0.0, 2.0), Real(1.0)).unwrap();
    c.set_radius(Real(-2.0));
    assert_eq!(*c.radius(), Real(2.0));
    let ray = Ray::new_unchecked_dir(v3(-3.0, 0.0, 1.0), v3(1.0, 0.0, 0.0));
    let tangents = c.tangents_at_intersections(&ray).to_vec();
    assert_eq!((tangents[0].0, tangents[1].0), (Real(1.0), Real(5.0)));
}

#[test]
fn simplex_accepts_points_between_its_vertices() {
    let segment = LineSegment::try_new([v2(2.0, -1.0), v2(2.0, 1.0)]).unwrap();
    let hit = Ray::new_unchecked_dir(v2(0.0, 0.5), v2(1.0, 0.0));
    assert!(near(segment.intersection(&hit).unwrap().0, 2.0));
    let end = Ray::new_unchecked_dir(v2(0.0, 1.0), v2(1.0, 0.0));
    assert!(segment.intersection(&end).is_some());
    let miss = Ray::new_unchecked_dir(v2(0.0, 1.5), v2(1.0, 0.0));
    assert_eq!(segment.intersection(&miss), None);
    let parallel = Ray::new_unchecked_dir(v2(0.0, 0.0), v2(0.0, 1.0));
    assert_eq!(segment.intersection(&parallel), None);
    // the mirror is met behind the ray's origin: a negative distance
    let behind = Ray::new_unchecked_dir(v2(5.0, 0.0), v2(1.0, 0.0));
    assert!(near(segment.intersection(&behind).unwrap().0, -3.0));
}

#[test]
fn triangle_uses_the_barycentric_test() {
    let triangle =
        Triangle::new([v3(0.0, 0.0, 0.0), v3(1.0, 0.0, 0.0), v3(0.0, 1.0, 0.0)]);
    let down = v3(0.0, 0.0, -1.0);
    let inside = Ray::new_unchecked_dir(v3(0.25, 0.25, 1.0), down);
    assert!(near(triangle.intersection(&inside).unwrap().0, 1.0));
    // in the parallelogram spanned by the edges, beyond the third side
    let beyond = Ray::new_unchecked_dir(v3(0.75, 0.75, 1.0), down);
    assert_eq!(triangle.intersection(&beyond), None);
    let negative = Ray::new_unchecked_dir(v3(-0.25, 0.25, 1.0), down);
    assert_eq!(triangle.intersection(&negative), None);
}

#[test]
fn footprint_distance_is_the_first_coordinate_when_accepted() {
    assert_eq!(footprint_distance(&v3(7.0, 0.25, 0.75)), Some(Real(7.0)));
    assert_eq!(footprint_distance(&v3(7.0, 0.0, 0.0)), Some(Real(7.0)));
    assert_eq!(footprint_distance(&v3(7.0, 0.5, 0.75)), None);
    assert_eq!(footprint_distance(&v3(7.0, -0.25, 0.5)), None);
    assert_eq!(footprint_distance(&v3(7.0, f64::NAN, 0.5)), None);
    assert_eq!(inside_distance(&v3(7.0, 0.5, -0.75)), Some(Real(7.0)));
    assert_eq!(inside_distance(&v3(7.0, 1.0, 0.0)), None);
    assert_eq!(inside_distance(&v3(7.0, 0.0, -1.5)), None);
}

#[test]
fn simplex_vertices_are_the_points_it_was_made_of() {
    let points = [v3(1.0, 2.0, 3.0), v3(2.0, 2.0, 3.0), v3(1.0, 5.0, 3.0)];
    let mut triangle = Triangle::try_new(points).unwrap();
    let vertices = triangle.vertices();
    for k in 0..3 {
        assert_eq!(coords(&vertices[k]), coords(&points[k]));
    }
    assert_eq!(coords(&triangle.inner_plane().basis()[1]), [0.0, 3.0, 0.0]);
    assert_eq!(coords(&triangle.inner_plane_ortho().as_basis().basis()[1]), [0.0, 1.0, 0.0]);
    *triangle.inner_plane_mut().v0_mut() = v3(0.0, 0.0, 0.0);
    assert_eq!(coords(&triangle.vertices()[1]), [1.0, 0.0, 0.0]);
    assert!(Triangle::try_new([v3(1.0, 1.0, 1.0), v3(2.0, 1.0, 1.0), v3(4.0, 1.0, 1.0)]).is_none());
}

#[test]
fn plane_mirror_uses_the_parallelotope_test() {
    let mirror = PlaneMirror::try_new([v2(2.0, 0.0), v2(0.0, 1.0)]).unwrap();
    let hit = Ray::new_unchecked_dir(v2(0.0, -0.5), v2(1.0, 0.0));
    assert!(near(mirror.intersection(&hit).unwrap().0, 2.0));
    let edge = Ray::new_unchecked_dir(v2(0.0, 1.0), v2(1.0, 0.0));
    assert_eq!(mirror.intersection(&edge), None);
    assert!(PlaneMirror::try_new([v2(2.0, 0.0), v2(0.0, 0.0)]).is_none());
    assert_eq!(coords(mirror.inner_plane().v0()), [2.0, 0.0]);
}

#[test]
fn plane_mirror_vertices_are_its_corners() {
    let mirror =
        PlaneMirror::try_new([v3(1.0, 1.0, 1.0), v3(1.0, 0.0, 0.0), v3(0.0, 2.0, 0.0)]).unwrap();
    let corners: Vec<[f64; 3]> = mirror.vertices().iter().map(coords).collect();
    assert_eq!(
        corners,
        vec![[2.0, 3.0, 1.0], [0.0, 3.0, 1.0], [2.0, -1.0, 1.0], [0.0, -1.0, 1.0]]
    );
    let segment = PlaneMirror::try_new([v2(2.0, 0.0), v2(0.0, 1.0)]).unwrap();
    let ends: Vec<[f64; 2]> = segment.vertices().iter().map(coords).collect();
    assert_eq!(ends, vec![[2.0, 1.0], [2.0, -1.0]]);
}

#[test]
fn numbers_are_equal_where_each_is_at_most_the_other() {
    assert!(same(Real(1.5), Real(1.5)));
    assert!(same(Real(0.0), Real(-0.0)));
    assert!(!same(Real(1.0), Real(2.0)));
    assert!(!same(Real(f64::NAN), Real(f64::NAN)));
    assert!(v2(1.0, 2.0) == v2(1.0, 2.0));
    assert!(v2(1.0, 2.0) != v2(1.0, 2.5));
    assert!(v2(f64::NAN, 2.0) != v2(f64::NAN, 2.0));
    assert!(same_family(&[v2(1.0, 2.0), v2(0.0, 0.0)], &[v2(1.0, 2.0), v2(-0.0, 0.0)]));
    assert!(!same_family(&[v2(1.0, 2.0), v2(0.0, 0.0)], &[v2(1.0, 2.0), v2(0.0, 1.0)]));
}

#[test]
fn rays_and_mirrors_are_compared_part_by_part() {
    assert_eq!(Ray::new(v2(0.0, 1.0), v2(0.0, 2.0)), Ray::new_unchecked_dir(v2(0.0, 1.0), v2(0.0, 1.0)));
    assert_ne!(Ray::new(v2(0.0, 1.0), v2(0.0, 2.0)), Ray::new(v2(0.0, 1.0), v2(2.0, 0.0)));
    let sphere = Sphere::new(v2(1.0, 2.0), Real(3.0)).unwrap();
    assert_eq!(sphere, Sphere::new(v2(1.0, 2.0), Real(-3.0)).unwrap());
    assert_ne!(sphere, Sphere::new(v2(1.0, 2.0), Real(3.5)).unwrap());
    assert_ne!(sphere, Sphere::new(v2(1.5, 2.0), Real(3.0)).unwrap());
    let tube = Cylinder::new(v3(0.0, 0.0, 0.0), v3(0.0, 0.0, 2.0), Real(1.0)).unwrap();
    assert_eq!(tube, tube.clone());
    assert_ne!(tube, Cylinder::new(v3(0.0, 0.0, 0.0), v3(0.0, 0.0, 3.0), Real(1.0)).unwrap());
    let segment = LineSegment::new([v2(1.0, 0.0), v2(0.0, 1.0)]);
    assert_eq!(segment, LineSegment::new([v2(1.0, 0.0), v2(0.0, 1.0)]));
    assert_ne!(segment, LineSegment::new([v2(1.0, 0.0), v2(0.0, -1.0)]));
    let mirror = PlaneMirror::try_new([v2(1.0, 0.0), v2(0.0, 1.0)]).unwrap();
    assert_eq!(mirror, mirror.clone());
    assert_ne!(mirror, PlaneMirror::try_new([v2(1.0, 0.0), v2(0.0, 2.0)]).unwrap());
    assert_eq!(*mirror.inner_plane(), *mirror.clone().inner_plane());
    let (plane, ortho) = HyperplaneBasis::try_new([v2(1.0, 0.0), v2(0.0, 2.0)]).unwrap();
    assert_ne!(plane, *mirror.inner_plane());
    assert_eq!(plane, *PlaneMirror::try_new([v2(1.0, 0.0), v2(0.0, 2.0)]).unwrap().inner_plane());
    // the two spanning vectors differ, the orthonormal families do not
    assert_ne!(plane, *ortho.as_basis());
    assert_eq!(Hyperplane::Plane(ortho), Hyperplane::Plane(*segment_ortho(&v2(1.0, 0.0), &v2(1.0, 5.0))));
    assert_ne!(Hyperplane::Plane(ortho), Hyperplane::Normal(v2(0.0, 1.0)));
    assert_eq!(Hyperplane::Normal(v2(0.0, 1.0)), Hyperplane::Normal(v2(0.0, 1.0)));
    assert_ne!(Hyperplane::Normal(v2(0.0, 1.0)), Hyperplane::Normal(v2(1.0, 0.0)));
    let wall = Plane {
        intersection: Intersection::StartingPoint(v2(2.0, 5.0)),
        direction: Hyperplane::Normal(v2(1.0, 0.0)),
    };
    assert_eq!(wall, wall.clone());
    assert_ne!(wall, Plane { intersection: Intersection::Distance(Real(2.0)), direction: wall.direction });
    assert_eq!(Intersection::<Real, 2>::Distance(Real(2.0)), Intersection::Distance(Real(2.0)));
    assert_ne!(Intersection::<Real, 2>::Distance(Real(2.0)), Intersection::Distance(Real(3.0)));
}

fn segment_ortho(
    a: &Vector<Real, 2>,
    b: &Vector<Real, 2>,
) -> Box<miroir::hyperplane::HyperplaneBasisOrtho<Real, 2>> {
    Box::new(*LineSegment::new([*a, *b]).inner_plane_ortho())
}

#[test]
fn the_orthonormal_twin_keeps_the_first_vector() {
    let given = [v3(5.0, -6.0, 7.0), v3(2.0, 0.0, 0.0), v3(1.0, 3.0, 0.0)];
    let (plane, ortho) = HyperplaneBasis::try_new(given).unwrap();
    assert_eq!(coords(plane.v0()), [5.0, -6.0, 7.0]);
    assert_eq!(coords(ortho.as_basis().v0()), [5.0, -6.0, 7.0]);
    assert!(near_all(&ortho.as_basis().basis()[0], [1.0, 0.0, 0.0]));
    assert!(near_all(&ortho.as_basis().basis()[1], [0.0, 1.0, 0.0]));
    assert_eq!(ortho.as_basis().basis().len(), 2);
    let triangle = Triangle::new(given);
    assert_eq!(coords(triangle.inner_plane_ortho().as_basis().v0()), [5.0, -6.0, 7.0]);
    let mirror = PlaneMirror::try_new(given).unwrap();
    assert_eq!(coords(mirror.inner_plane().v0()), [5.0, -6.0, 7.0]);
    // a line has no direction to span
    let (point, twin) = HyperplaneBasis::try_new([Vector::new([Real(4.0)])]).unwrap();
    assert_eq!(coords(point.v0()), [4.0]);
    assert_eq!(coords(twin.as_basis().v0()), [4.0]);
}
