//! What holds where numbers do not round.
//!
//! Machine numbers round, and a reflection of a direction is then only
//! about as long as the direction was. The statements of this module are
//! about number types whose operations are those of the real numbers: there
//! a normalised vector has norm one, a reflection is undone by itself, and
//! the points where a ray meets a sphere are at the sphere's radius from
//! its centre.

use crate::ctx::closest;
use crate::hyperplane::{
    projection, projection_prefix, reflected_across_normal, reflected_across_plane, Hyperplane,
};
use crate::mirror::Mirror;
use crate::path::bounced;
use crate::ray::is_direction;
use crate::ray::Ray;
use crate::scalar::{checked_root, Scalar};
use crate::sphere::Sphere;
use crate::vector::{
    difference_of, dot, dot_prefix, lemma_vector_of, norm, norm_squared, normalized, Vector,
};
use vstd::prelude::*;

verus! {

/// `x y`
#[verifier::opaque]
pub open spec fn times(x: real, y: real) -> real {
    x * y
}

/// `x y = y x`
pub proof fn lemma_times_commutes(x: real, y: real)
    ensures
        times(x, y) == times(y, x),
{
    reveal(times);
    assert(x * y == y * x) by (nonlinear_arith);
}

/// `a (b + c) = a b + a c`, and the same of a difference.
pub proof fn lemma_times_distributes(a: real, b: real, c: real)
    ensures
        times(a, b + c) == times(a, b) + times(a, c),
        times(a, b - c) == times(a, b) - times(a, c),
{
    reveal(times);
    assert(a * (b + c) == a * b + a * c) by (nonlinear_arith);
    assert(a * (b - c) == a * b - a * c) by (nonlinear_arith);
}

/// `(a + b) c = a c + b c`, and the same of a difference.
pub proof fn lemma_times_distributes_right(a: real, b: real, c: real)
    ensures
        times(a + b, c) == times(a, c) + times(b, c),
        times(a - b, c) == times(a, c) - times(b, c),
{
    lemma_times_commutes(a + b, c);
    lemma_times_commutes(a - b, c);
    lemma_times_commutes(a, c);
    lemma_times_commutes(b, c);
    lemma_times_distributes(c, a, b);
}

/// `(a b) c = a (b c)`
pub proof fn lemma_times_associates(a: real, b: real, c: real)
    ensures
        times(times(a, b), c) == times(a, times(b, c)),
{
    reveal(times);
    assert((a * b) * c == a * (b * c)) by (nonlinear_arith);
}

/// One leaves what it multiplies as it is; zero makes it zero.
pub proof fn lemma_times_one(a: real)
    ensures
        times(1 as real, a) == a,
        times(a, 1 as real) == a,
        times(0 as real, a) == 0 as real,
        times(a, 0 as real) == 0 as real,
{
    reveal(times);
    assert((1 as real) * a == a) by (nonlinear_arith);
    assert(a * (1 as real) == a) by (nonlinear_arith);
    assert((0 as real) * a == 0 as real) by (nonlinear_arith);
    assert(a * (0 as real) == 0 as real) by (nonlinear_arith);
}

/// `a b = a` leaves `b` no choice but one, unless `a` is zero.
pub proof fn lemma_times_cancels(a: real, b: real)
    requires
        times(a, b) == a,
        a != 0 as real,
    ensures
        b == 1 as real,
{
    reveal(times);
    assert(b == 1 as real) by (nonlinear_arith)
        requires
            a * b == a,
            a != 0 as real,
    ;
}

/// Whether `value` reads the numbers of `S` as real numbers in such a way
/// that the operations of `S` are those of the real numbers: whether `S`
/// computes without rounding.
pub open spec fn is_exact<S: Scalar>(value: spec_fn(S) -> real) -> bool {
    &&& forall|a: S, b: S| #![trigger value(a), value(b)] value(a) == value(b) ==> a == b
    &&& value(S::zero_value()) == 0 as real
    &&& value(S::one_value()) == 1 as real
    &&& forall|a: S, b: S| #[trigger] value(a.sum(b)) == value(a) + value(b)
    &&& forall|a: S, b: S| #[trigger] value(a.difference(b)) == value(a) - value(b)
    &&& forall|a: S, b: S| #[trigger] value(a.product(b)) == times(value(a), value(b))
    &&& forall|a: S, b: S|
        value(b) != 0 as real ==> times(#[trigger] value(a.quotient(b)), value(b)) == value(a)
    &&& forall|a: S| #[trigger] value(a.negation()) == (0 as real) - value(a)
    &&& forall|a: S|
        #[trigger] value(a.magnitude()) == if value(a) >= 0 as real {
            value(a)
        } else {
            (0 as real) - value(a)
        }
    &&& forall|a: S| #[trigger] a.finite()
    &&& forall|a: S, b: S, c: S|
        #[trigger] value(a.fused(b, c)) == times(value(a), value(b)) + value(c)
    &&& forall|a: S|
        value(a) >= 0 as real ==> value(#[trigger] a.root()) >= 0 as real && times(
            value(a.root()),
            value(a.root()),
        ) == value(a)
    &&& forall|a: S, b: S| #[trigger] a.below(b) == (value(a) < value(b))
    &&& forall|a: S, b: S| #[trigger] a.at_most(b) == (value(a) <= value(b))
}

/// The coordinates of `v`, read as real numbers.
pub open spec fn values<S>(value: spec_fn(S) -> real, v: Seq<S>) -> Seq<real> {
    Seq::new(v.len(), |i: int| value(v[i]))
}

/// `x[0] y[0] + ... + x[n - 1] y[n - 1]`
pub open spec fn real_dot(x: Seq<real>, y: Seq<real>, n: nat) -> real
    decreases n,
{
    if n == 0 {
        0 as real
    } else {
        real_dot(x, y, (n - 1) as nat) + times(x[n - 1], y[n - 1])
    }
}

/// The dot product of two vectors reads as the dot product of what they
/// read as.
pub proof fn lemma_dot_value<S: Scalar>(value: spec_fn(S) -> real, a: Seq<S>, b: Seq<S>, n: nat)
    requires
        is_exact(value),
        n <= a.len(),
        n <= b.len(),
    ensures
        value(dot_prefix(a, b, n)) == real_dot(values(value, a), values(value, b), n),
    decreases n,
{
    if n > 0 {
        lemma_dot_value(value, a, b, (n - 1) as nat);
        let before = dot_prefix(a, b, (n - 1) as nat);
        let term = a[n - 1].product(b[n - 1]);
        assert(value(before.sum(term)) == value(before) + value(term));
        assert(value(term) == times(value(a[n - 1]), value(b[n - 1])));
    }
}

/// The dot product does not depend on the order of its operands.
pub proof fn lemma_real_dot_symmetric(x: Seq<real>, y: Seq<real>, n: nat)
    ensures
        real_dot(x, y, n) == real_dot(y, x, n),
    decreases n,
{
    if n > 0 {
        lemma_real_dot_symmetric(x, y, (n - 1) as nat);
        lemma_times_commutes(x[n - 1], y[n - 1]);
    }
}

proof fn lemma_linear_step(
    alpha: real,
    beta: real,
    dx: real,
    dz: real,
    xi: real,
    zi: real,
    yi: real,
    wi: real,
)
    requires
        wi == times(alpha, xi) + times(beta, zi),
    ensures
        (times(alpha, dx) + times(beta, dz)) + times(wi, yi) == times(alpha, dx + times(xi, yi))
            + times(beta, dz + times(zi, yi)),
{
    lemma_times_distributes(alpha, dx, times(xi, yi));
    lemma_times_distributes(beta, dz, times(zi, yi));
    lemma_times_distributes_right(times(alpha, xi), times(beta, zi), yi);
    lemma_times_associates(alpha, xi, yi);
    lemma_times_associates(beta, zi, yi);
}

/// The dot product is linear in its first operand.
pub proof fn lemma_real_dot_linear(
    alpha: real,
    x: Seq<real>,
    beta: real,
    z: Seq<real>,
    w: Seq<real>,
    y: Seq<real>,
    n: nat,
)
    requires
        forall|i: int| 0 <= i < n ==> #[trigger] w[i] == times(alpha, x[i]) + times(beta, z[i]),
    ensures
        real_dot(w, y, n) == times(alpha, real_dot(x, y, n)) + times(beta, real_dot(z, y, n)),
    decreases n,
{
    if n == 0 {
        lemma_times_one(alpha);
        lemma_times_one(beta);
    } else {
        lemma_real_dot_linear(alpha, x, beta, z, w, y, (n - 1) as nat);
        let i = n - 1;
        assert(w[i] == times(alpha, x[i]) + times(beta, z[i]));
        lemma_linear_step(
            alpha,
            beta,
            real_dot(x, y, i as nat),
            real_dot(z, y, i as nat),
            x[i],
            z[i],
            y[i],
            w[i],
        );
    }
}

/// Where numbers do not round, a vector that is not zero, once normalised,
/// has norm one.
pub proof fn lemma_normalized_has_norm_one<S: Scalar>(value: spec_fn(S) -> real, v: Seq<S>)
    requires
        is_exact(value),
        value(norm_squared(v)) > 0 as real,
    ensures
        norm_squared(normalized(v)) == S::one_value(),
{
    let n = v.len();
    let s = norm(v);
    let sigma = value(s);
    let q = normalized(v);
    let big_v = values(value, v);
    let big_q = values(value, q);
    lemma_dot_value(value, v, v, n);
    lemma_dot_value(value, q, q, n);
    let qq = real_dot(big_q, big_q, n);
    let qv = real_dot(big_q, big_v, n);
    let vv = real_dot(big_v, big_v, n);
    assert(sigma >= 0 as real && times(sigma, sigma) == vv);
    assert(sigma != 0 as real) by {
        lemma_times_one(0 as real);
    }
    assert forall|i: int| 0 <= i < n implies #[trigger] big_v[i] == times(sigma, big_q[i]) + times(
        0 as real,
        big_q[i],
    ) by {
        assert(times(value(v[i].quotient(s)), value(s)) == value(v[i]));
        lemma_times_commutes(sigma, big_q[i]);
        lemma_times_one(big_q[i]);
    }
    // |v|^2 = sigma (q . v) and q . v = sigma |q|^2
    lemma_real_dot_linear(sigma, big_q, 0 as real, big_q, big_v, big_v, n);
    lemma_real_dot_symmetric(big_q, big_v, n);
    lemma_real_dot_linear(sigma, big_q, 0 as real, big_q, big_v, big_q, n);
    lemma_times_one(qv);
    lemma_times_one(qq);
    lemma_times_associates(sigma, sigma, qq);
    assert(times(vv, qq) == vv);
    lemma_times_cancels(vv, qq);
    assert(value(norm_squared(q)) == value(S::one_value()));
}

/// A sign can be taken out of a product.
pub proof fn lemma_times_negates(a: real, b: real)
    ensures
        times(a, (0 as real) - b) == (0 as real) - times(a, b),
        times((0 as real) - a, b) == (0 as real) - times(a, b),
        times(a, (0 as real) - (b + b)) == (0 as real) - (times(a, b) + times(a, b)),
{
    lemma_times_distributes(a, 0 as real, b);
    lemma_times_distributes_right(0 as real, a, b);
    lemma_times_distributes(a, 0 as real, b + b);
    lemma_times_distributes(a, b, b);
    lemma_times_one(a);
    lemma_times_one(b);
}

/// Where numbers do not round, reflecting twice across the hyperplane of
/// unit normal `n` gives back what was reflected.
pub proof fn lemma_reflection_across_normal_is_involution<S: Scalar>(
    value: spec_fn(S) -> real,
    n: Seq<S>,
    v: Seq<S>,
)
    requires
        is_exact(value),
        n.len() == v.len(),
        norm_squared(n) == S::one_value(),
    ensures
        reflected_across_normal(n, reflected_across_normal(n, v)) == v,
{
    let len = v.len();
    let r = reflected_across_normal(n, v);
    let back = reflected_across_normal(n, r);
    let big_n = values(value, n);
    let big_v = values(value, v);
    let big_r = values(value, r);
    let c = real_dot(big_v, big_n, len);
    let k = (0 as real) - (c + c);
    lemma_dot_value(value, v, n, len);
    lemma_dot_value(value, r, n, len);
    lemma_dot_value(value, n, n, len);
    assert forall|i: int| 0 <= i < len implies #[trigger] big_r[i] == times(1 as real, big_v[i])
        + times(k, big_n[i]) by {
        let along = n[i].product(dot(v, n));
        assert(value(along.sum(along)) == value(along) + value(along));
        assert(value(along) == times(big_n[i], c));
        lemma_times_one(big_v[i]);
        lemma_times_negates(big_n[i], c);
        lemma_times_commutes(k, big_n[i]);
    }
    lemma_real_dot_linear(1 as real, big_v, k, big_n, big_r, big_n, len);
    let c2 = real_dot(big_r, big_n, len);
    assert(c2 == (0 as real) - c) by {
        lemma_times_one(c);
        lemma_times_one(k);
    }
    assert forall|i: int| 0 <= i < len implies back[i] == v[i] by {
        let along = n[i].product(dot(r, n));
        assert(value(along.sum(along)) == value(along) + value(along));
        assert(value(along) == times(big_n[i], c2));
        assert(big_r[i] == times(1 as real, big_v[i]) + times(k, big_n[i]));
        lemma_times_one(big_v[i]);
        lemma_times_negates(big_n[i], c);
        lemma_times_commutes(k, big_n[i]);
        assert(value(back[i]) == big_r[i] - (times(big_n[i], c2) + times(big_n[i], c2)));
        assert(value(back[i]) == value(v[i]));
    }
    assert(back =~= v);
}

/// Whether the vectors of `family` after the first are of norm one and at
/// right angles to each other.
pub open spec fn is_orthonormal<S: Scalar, const D: usize>(family: Seq<Vector<S, D>>) -> bool {
    forall|j: int, k: int|
        1 <= j < D && 1 <= k < D ==> #[trigger] dot(family[j]@, family[k]@) == if j == k {
            S::one_value()
        } else {
            S::zero_value()
        }
}

/// A projection is a vector of `D` coordinates.
proof fn lemma_projection_len<S: Scalar, const D: usize>(
    family: Seq<Vector<S, D>>,
    v: Seq<S>,
    m: nat,
)
    ensures
        projection_prefix(family, v, m).len() == D,
    decreases m,
{
    if m > 1 {
        lemma_projection_len(family, v, (m - 1) as nat);
    }
}

/// The dot product of the zero vector with any vector is zero.
proof fn lemma_real_dot_zero(x: Seq<real>, y: Seq<real>, n: nat)
    requires
        forall|i: int| 0 <= i < n ==> #[trigger] x[i] == 0 as real,
    ensures
        real_dot(x, y, n) == 0 as real,
    decreases n,
{
    if n > 0 {
        lemma_real_dot_zero(x, y, (n - 1) as nat);
        assert(x[n - 1] == 0 as real);
        lemma_times_one(y[n - 1]);
    }
}

/// The dot product of a spanning vector with the projection of `v` on the
/// first of the spanning vectors: that of `v`, if the vector is among these.
proof fn lemma_projection_dot<S: Scalar, const D: usize>(
    value: spec_fn(S) -> real,
    family: Seq<Vector<S, D>>,
    v: Seq<S>,
    j: int,
    m: nat,
)
    requires
        is_exact(value),
        family.len() == D,
        v.len() == D,
        is_orthonormal(family),
        1 <= j < D,
        1 <= m <= D,
    ensures
        value(dot(projection_prefix(family, v, m), family[j]@)) == if j < m {
            value(dot(v, family[j]@))
        } else {
            0 as real
        },
    decreases m,
{
    broadcast use vstd::array::group_array_axioms;

    let e = family[j]@;
    let big_e = values(value, e);
    let d = D as nat;
    lemma_projection_len(family, v, m);
    let now = projection_prefix(family, v, m);
    lemma_dot_value(value, now, e, d);
    if m <= 1 {
        lemma_real_dot_zero(values(value, now), big_e, d);
    } else {
        lemma_projection_dot(value, family, v, j, (m - 1) as nat);
        lemma_projection_len(family, v, (m - 1) as nat);
        let before = projection_prefix(family, v, (m - 1) as nat);
        let k = m - 1;
        let f = family[k]@;
        let c = value(dot(v, f));
        let big_b = values(value, before);
        let big_f = values(value, f);
        let big_now = values(value, now);
        assert forall|i: int| 0 <= i < d implies #[trigger] big_now[i] == times(
            1 as real,
            big_b[i],
        ) + times(c, big_f[i]) by {
            assert(value(f[i].product(dot(v, f))) == times(big_f[i], c));
            lemma_times_one(big_b[i]);
            lemma_times_commutes(c, big_f[i]);
        }
        lemma_real_dot_linear(1 as real, big_b, c, big_f, big_now, big_e, d);
        lemma_dot_value(value, before, e, d);
        lemma_dot_value(value, f, e, d);
        assert(dot(family[k]@, family[j]@) == if k == j {
            S::one_value()
        } else {
            S::zero_value()
        });
        lemma_times_one(real_dot(big_b, big_e, d));
        lemma_times_one(c);
    }
}

/// The projection of a vector depends on its dot products with the
/// spanning vectors alone.
proof fn lemma_projection_depends_on_dots<S: Scalar, const D: usize>(
    family: Seq<Vector<S, D>>,
    v: Seq<S>,
    w: Seq<S>,
    m: nat,
)
    requires
        m <= D,
        forall|k: int| 1 <= k < D ==> dot(v, #[trigger] family[k]@) == dot(w, family[k]@),
    ensures
        projection_prefix(family, v, m) == projection_prefix(family, w, m),
    decreases m,
{
    if m > 1 {
        lemma_projection_depends_on_dots(family, v, w, (m - 1) as nat);
        assert(dot(v, family[m - 1]@) == dot(w, family[m - 1]@));
    }
}

/// Where numbers do not round, reflecting twice across the hyperplane
/// spanned by an orthonormal family gives back what was reflected.
pub proof fn lemma_reflection_across_plane_is_involution<S: Scalar, const D: usize>(
    value: spec_fn(S) -> real,
    family: Seq<Vector<S, D>>,
    v: Seq<S>,
)
    requires
        is_exact(value),
        D >= 1,
        family.len() == D,
        v.len() == D,
        is_orthonormal(family),
    ensures
        reflected_across_plane(family, reflected_across_plane(family, v)) == v,
{
    broadcast use vstd::array::group_array_axioms;

    let d = D as nat;
    let p = projection(family, v);
    let w = reflected_across_plane(family, v);
    let big_p = values(value, p);
    let big_v = values(value, v);
    let big_w = values(value, w);
    let minus_one = (0 as real) - (1 as real);
    lemma_projection_len(family, v, d);
    assert forall|i: int| 0 <= i < d implies #[trigger] big_w[i] == times(2 as real, big_p[i])
        + times(minus_one, big_v[i]) by {
        assert(value(p[i].sum(p[i])) == value(p[i]) + value(p[i]));
        lemma_times_distributes_right(1 as real, 1 as real, big_p[i]);
        lemma_times_one(big_p[i]);
        lemma_times_negates(1 as real, big_v[i]);
        lemma_times_one(big_v[i]);
    }
    assert forall|k: int| 1 <= k < D implies dot(w, #[trigger] family[k]@) == dot(
        v,
        family[k]@,
    ) by {
        let e = family[k]@;
        let big_e = values(value, e);
        lemma_projection_dot(value, family, v, k, d);
        lemma_real_dot_linear(2 as real, big_p, minus_one, big_v, big_w, big_e, d);
        lemma_dot_value(value, w, e, d);
        lemma_dot_value(value, p, e, d);
        lemma_dot_value(value, v, e, d);
        let pe = real_dot(big_p, big_e, d);
        let ve = real_dot(big_v, big_e, d);
        assert(pe == ve);
        lemma_times_distributes_right(1 as real, 1 as real, pe);
        lemma_times_one(pe);
        lemma_times_negates(1 as real, ve);
        lemma_times_one(ve);
        assert(value(dot(w, e)) == value(dot(v, e)));
    }
    lemma_projection_depends_on_dots(family, w, v, d);
    let back = reflected_across_plane(family, w);
    assert forall|i: int| 0 <= i < d implies back[i] == v[i] by {
        assert(value(p[i].sum(p[i])) == value(p[i]) + value(p[i]));
        assert(value(back[i]) == (big_p[i] + big_p[i]) - big_w[i]);
        assert(big_w[i] == (big_p[i] + big_p[i]) - big_v[i]);
        assert(value(back[i]) == value(v[i]));
    }
    assert(back =~= v);
}

/// `(a + b)^2 = a^2 + 2 a b + b^2`
pub proof fn lemma_times_square_of_sum(a: real, b: real)
    ensures
        times(a + b, a + b) == times(a, a) + (times(a, b) + times(a, b)) + times(b, b),
{
    lemma_times_distributes(a + b, a, b);
    lemma_times_distributes_right(a, b, a);
    lemma_times_distributes_right(a, b, b);
    lemma_times_commutes(a, b);
}

/// `(-a)^2 = a^2`
pub proof fn lemma_times_square_of_opposite(a: real)
    ensures
        times((0 as real) - a, (0 as real) - a) == times(a, a),
{
    lemma_times_negates((0 as real) - a, a);
    lemma_times_negates(a, a);
}

/// `t^2 + 2 b t + vv` is `r2` where `t` is `-b - s` or `-b + s` and
/// `s^2 = b^2 - (vv - r2)`.
proof fn lemma_root_solves(tau: real, beta: real, sigma: real, vv: real, r2: real)
    requires
        times(sigma, sigma) == times(beta, beta) + ((0 as real) - (vv - r2)),
        tau == ((0 as real) - beta) + sigma || tau == ((0 as real) - beta) - sigma,
    ensures
        times(tau, tau) + (times(tau, beta) + times(tau, beta)) + vv == r2,
{
    let u = (0 as real) - beta;
    let e = tau - u;
    assert(tau == u + e);
    assert(times(e, e) == times(sigma, sigma)) by {
        if e != sigma {
            assert(e == (0 as real) - sigma);
            lemma_times_square_of_opposite(sigma);
        }
    }
    lemma_times_square_of_sum(u, e);
    lemma_times_square_of_opposite(beta);
    lemma_times_distributes_right(u, e, beta);
    lemma_times_negates(beta, beta);
    lemma_times_negates(beta, e);
    lemma_times_commutes(e, beta);
}

proof fn lemma_point_on_sphere<S: Scalar, const D: usize>(
    value: spec_fn(S) -> real,
    sphere: Sphere<S, D>,
    ray: Ray<S, D>,
    t: S,
    second: bool,
)
    requires
        is_exact(value),
        norm_squared(ray.dir@) == S::one_value(),
        sphere.roots(ray) matches Some(ts) && t == if second {
            ts.1
        } else {
            ts.0
        },
    ensures
        norm_squared(difference_of(ray.point_at(t), sphere.spec_center()@))
            == sphere.spec_radius_sq(),
{
    broadcast use vstd::array::group_array_axioms;

    let d = D as nat;
    let v = difference_of(ray.origin@, sphere.spec_center()@);
    let dir = ray.dir@;
    let b = dot(v, dir);
    let c = norm_squared(v).difference(sphere.spec_radius_sq());
    let delta = b.fused(b, c.negation());
    let root = delta.root();
    assert(checked_root(delta) == Some(root));
    let p = difference_of(ray.point_at(t), sphere.spec_center()@);
    let big_v = values(value, v);
    let big_d = values(value, dir);
    let big_p = values(value, p);
    let tau = value(t);
    assert forall|i: int| 0 <= i < d implies #[trigger] big_p[i] == times(tau, big_d[i]) + times(
        1 as real,
        big_v[i],
    ) by {
        let o = ray.origin@[i];
        let m = sphere.spec_center()@[i];
        assert(value(dir[i].product(t).sum(o)) == value(dir[i].product(t)) + value(o));
        assert(value(dir[i].product(t)) == times(big_d[i], tau));
        assert(value(o.difference(m)) == value(o) - value(m));
        lemma_times_commutes(tau, big_d[i]);
        lemma_times_one(big_v[i]);
    }
    // |p|^2 = t^2 |d|^2 + 2 t (v . d) + |v|^2
    lemma_real_dot_linear(tau, big_d, 1 as real, big_v, big_p, big_p, d);
    lemma_real_dot_symmetric(big_d, big_p, d);
    lemma_real_dot_symmetric(big_v, big_p, d);
    lemma_real_dot_linear(tau, big_d, 1 as real, big_v, big_p, big_d, d);
    lemma_real_dot_linear(tau, big_d, 1 as real, big_v, big_p, big_v, d);
    lemma_real_dot_symmetric(big_d, big_v, d);
    lemma_dot_value(value, p, p, d);
    lemma_dot_value(value, v, v, d);
    lemma_dot_value(value, v, dir, d);
    lemma_dot_value(value, dir, dir, d);
    let pp = real_dot(big_p, big_p, d);
    let vv = real_dot(big_v, big_v, d);
    let beta = value(b);
    let sigma = value(root);
    let r2 = value(sphere.spec_radius_sq());
    assert(value(delta) == times(beta, beta) + ((0 as real) - (vv - r2)));
    assert(times(sigma, sigma) == value(delta));
    assert(tau == if second {
        ((0 as real) - beta) + sigma
    } else {
        ((0 as real) - beta) - sigma
    });
    lemma_times_one(tau);
    lemma_times_one(beta);
    lemma_times_one(vv);
    lemma_times_one(real_dot(big_d, big_p, d));
    lemma_times_one(real_dot(big_v, big_p, d));
    lemma_times_distributes(tau, tau, beta);
    assert(pp == times(tau, tau) + (times(tau, beta) + times(tau, beta)) + vv);
    lemma_root_solves(tau, beta, sigma, vv, r2);
    assert(value(norm_squared(p)) == value(sphere.spec_radius_sq()));
}

/// Where numbers do not round, every point where the line of a ray of unit
/// direction meets a sphere is at the sphere's radius from its centre: the
/// square of its distance to the centre is the squared radius.
pub proof fn lemma_sphere_points_are_at_radius<S: Scalar, const D: usize>(
    value: spec_fn(S) -> real,
    sphere: Sphere<S, D>,
    ray: Ray<S, D>,
)
    requires
        is_exact(value),
        norm_squared(ray.dir@) == S::one_value(),
    ensures
        sphere.roots(ray) matches Some((t1, t2)) ==> {
            &&& norm_squared(difference_of(ray.point_at(t1), sphere.spec_center()@))
                == sphere.spec_radius_sq()
            &&& norm_squared(difference_of(ray.point_at(t2), sphere.spec_center()@))
                == sphere.spec_radius_sq()
        },
{
    if let Some((t1, t2)) = sphere.roots(ray) {
        lemma_point_on_sphere(value, sphere, ray, t1, false);
        lemma_point_on_sphere(value, sphere, ray, t2, true);
    }
}

/// Where numbers do not round, a reflection across the hyperplane of unit
/// normal `n` keeps the norm.
pub proof fn lemma_reflection_across_normal_keeps_norm<S: Scalar>(
    value: spec_fn(S) -> real,
    n: Seq<S>,
    v: Seq<S>,
)
    requires
        is_exact(value),
        n.len() == v.len(),
        norm_squared(n) == S::one_value(),
    ensures
        norm_squared(reflected_across_normal(n, v)) == norm_squared(v),
{
    let len = v.len();
    let r = reflected_across_normal(n, v);
    let big_n = values(value, n);
    let big_v = values(value, v);
    let big_r = values(value, r);
    let c = real_dot(big_v, big_n, len);
    let k = (0 as real) - (c + c);
    lemma_dot_value(value, v, n, len);
    lemma_dot_value(value, n, n, len);
    lemma_dot_value(value, r, r, len);
    lemma_dot_value(value, v, v, len);
    assert forall|i: int| 0 <= i < len implies #[trigger] big_r[i] == times(1 as real, big_v[i])
        + times(k, big_n[i]) by {
        let along = n[i].product(dot(v, n));
        assert(value(along.sum(along)) == value(along) + value(along));
        assert(value(along) == times(big_n[i], c));
        lemma_times_one(big_v[i]);
        lemma_times_negates(big_n[i], c);
        lemma_times_commutes(k, big_n[i]);
    }
    // r . r = v . r + k (n . r), v . r = v . v + k c, n . r = c + k
    lemma_real_dot_linear(1 as real, big_v, k, big_n, big_r, big_r, len);
    lemma_real_dot_linear(1 as real, big_v, k, big_n, big_r, big_v, len);
    lemma_real_dot_linear(1 as real, big_v, k, big_n, big_r, big_n, len);
    lemma_real_dot_symmetric(big_v, big_r, len);
    lemma_real_dot_symmetric(big_n, big_r, len);
    lemma_real_dot_symmetric(big_n, big_v, len);
    let vv = real_dot(big_v, big_v, len);
    let rv = real_dot(big_r, big_v, len);
    let rn = real_dot(big_r, big_n, len);
    lemma_times_one(vv);
    lemma_times_one(c);
    lemma_times_one(k);
    lemma_times_one(rv);
    assert(rn == (0 as real) - c);
    assert(rv == vv + times(k, c));
    lemma_times_negates(k, c);
    assert(value(norm_squared(r)) == value(norm_squared(v)));
}

/// The dot product of a projection with a vector depends on the dot
/// products of the spanning vectors with that vector alone.
proof fn lemma_projection_dot_congruent<S: Scalar, const D: usize>(
    value: spec_fn(S) -> real,
    family: Seq<Vector<S, D>>,
    v: Seq<S>,
    x: Seq<S>,
    y: Seq<S>,
    m: nat,
)
    requires
        is_exact(value),
        family.len() == D,
        x.len() == D,
        y.len() == D,
        m <= D,
        forall|k: int| 1 <= k < D ==> dot(#[trigger] family[k]@, x) == dot(family[k]@, y),
    ensures
        dot(projection_prefix(family, v, m), x) == dot(projection_prefix(family, v, m), y),
    decreases m,
{
    broadcast use vstd::array::group_array_axioms;

    let d = D as nat;
    let now = projection_prefix(family, v, m);
    lemma_projection_len(family, v, m);
    lemma_dot_value(value, now, x, d);
    lemma_dot_value(value, now, y, d);
    let big_now = values(value, now);
    let big_x = values(value, x);
    let big_y = values(value, y);
    if m <= 1 {
        lemma_real_dot_zero(big_now, big_x, d);
        lemma_real_dot_zero(big_now, big_y, d);
    } else {
        lemma_projection_dot_congruent(value, family, v, x, y, (m - 1) as nat);
        lemma_projection_len(family, v, (m - 1) as nat);
        let before = projection_prefix(family, v, (m - 1) as nat);
        let k = m - 1;
        let f = family[k]@;
        let c = value(dot(v, f));
        let big_b = values(value, before);
        let big_f = values(value, f);
        assert forall|i: int| 0 <= i < d implies #[trigger] big_now[i] == times(
            1 as real,
            big_b[i],
        ) + times(c, big_f[i]) by {
            assert(value(f[i].product(dot(v, f))) == times(big_f[i], c));
            lemma_times_one(big_b[i]);
            lemma_times_commutes(c, big_f[i]);
        }
        lemma_real_dot_linear(1 as real, big_b, c, big_f, big_now, big_x, d);
        lemma_real_dot_linear(1 as real, big_b, c, big_f, big_now, big_y, d);
        lemma_dot_value(value, before, x, d);
        lemma_dot_value(value, before, y, d);
        lemma_dot_value(value, f, x, d);
        lemma_dot_value(value, f, y, d);
        assert(dot(family[k]@, x) == dot(family[k]@, y));
    }
    assert(value(dot(now, x)) == value(dot(now, y)));
}

/// Where numbers do not round, a reflection across the hyperplane spanned
/// by an orthonormal family keeps the norm.
pub proof fn lemma_reflection_across_plane_keeps_norm<S: Scalar, const D: usize>(
    value: spec_fn(S) -> real,
    family: Seq<Vector<S, D>>,
    v: Seq<S>,
)
    requires
        is_exact(value),
        D >= 1,
        family.len() == D,
        v.len() == D,
        is_orthonormal(family),
    ensures
        norm_squared(reflected_across_plane(family, v)) == norm_squared(v),
{
    broadcast use vstd::array::group_array_axioms;

    let d = D as nat;
    let p = projection(family, v);
    let w = reflected_across_plane(family, v);
    let big_p = values(value, p);
    let big_v = values(value, v);
    let big_w = values(value, w);
    let minus_one = (0 as real) - (1 as real);
    lemma_projection_len(family, v, d);
    assert forall|i: int| 0 <= i < d implies #[trigger] big_w[i] == times(2 as real, big_p[i])
        + times(minus_one, big_v[i]) by {
        assert(value(p[i].sum(p[i])) == value(p[i]) + value(p[i]));
        lemma_times_distributes_right(1 as real, 1 as real, big_p[i]);
        lemma_times_one(big_p[i]);
        lemma_times_negates(1 as real, big_v[i]);
        lemma_times_one(big_v[i]);
    }
    // p . p = p . v, since p and v have the same dot products with the family
    assert forall|k: int| 1 <= k < D implies dot(#[trigger] family[k]@, p) == dot(
        family[k]@,
        v,
    ) by {
        let e = family[k]@;
        let big_e = values(value, e);
        lemma_projection_dot(value, family, v, k, d);
        lemma_dot_value(value, p, e, d);
        lemma_dot_value(value, v, e, d);
        lemma_dot_value(value, e, p, d);
        lemma_dot_value(value, e, v, d);
        lemma_real_dot_symmetric(big_e, big_p, d);
        lemma_real_dot_symmetric(big_e, big_v, d);
        assert(value(dot(e, p)) == value(dot(e, v)));
    }
    lemma_projection_dot_congruent(value, family, v, p, v, d);
    lemma_dot_value(value, p, p, d);
    lemma_dot_value(value, p, v, d);
    lemma_dot_value(value, w, w, d);
    lemma_dot_value(value, v, v, d);
    let pp = real_dot(big_p, big_p, d);
    let pv = real_dot(big_p, big_v, d);
    let vv = real_dot(big_v, big_v, d);
    assert(pp == pv);
    // w . w = 2 (p . w) - v . w, w . p = 2 p . p - v . p, w . v = 2 p . v - v . v
    lemma_real_dot_linear(2 as real, big_p, minus_one, big_v, big_w, big_w, d);
    lemma_real_dot_linear(2 as real, big_p, minus_one, big_v, big_w, big_p, d);
    lemma_real_dot_linear(2 as real, big_p, minus_one, big_v, big_w, big_v, d);
    lemma_real_dot_symmetric(big_p, big_w, d);
    lemma_real_dot_symmetric(big_v, big_w, d);
    lemma_real_dot_symmetric(big_v, big_p, d);
    let wp = real_dot(big_w, big_p, d);
    let wv = real_dot(big_w, big_v, d);
    lemma_times_distributes_right(1 as real, 1 as real, pp);
    lemma_times_distributes_right(1 as real, 1 as real, pv);
    lemma_times_distributes_right(1 as real, 1 as real, wp);
    lemma_times_one(pp);
    lemma_times_one(pv);
    lemma_times_one(wp);
    lemma_times_negates(1 as real, pv);
    lemma_times_negates(1 as real, vv);
    lemma_times_negates(1 as real, wv);
    lemma_times_one(vv);
    lemma_times_one(wv);
    assert(wp == pv);
    assert(wv == (pv + pv) - vv);
    assert(value(norm_squared(w)) == value(norm_squared(v)));
}

impl<S: Scalar, const D: usize> Hyperplane<S, D> {
    /// Whether the hyperplane is given by a normal of norm one, or by a
    /// spanning family that is orthonormal.
    pub open spec fn is_unitary(&self) -> bool {
        match self {
            Hyperplane::Plane(plane) => is_orthonormal(plane.spec_vectors()@),
            Hyperplane::Normal(n) => norm_squared(n@) == S::one_value(),
        }
    }
}

/// Where numbers do not round, a reflection keeps the norm.
pub proof fn lemma_reflection_keeps_norm<S: Scalar, const D: usize>(
    value: spec_fn(S) -> real,
    plane: Hyperplane<S, D>,
    v: Seq<S>,
)
    requires
        is_exact(value),
        D >= 1,
        v.len() == D,
        plane.is_unitary(),
    ensures
        norm_squared(plane.reflected(v)) == norm_squared(v),
{
    broadcast use vstd::array::group_array_axioms;

    match plane {
        Hyperplane::Plane(basis) => {
            lemma_reflection_across_plane_keeps_norm(value, basis.spec_vectors()@, v);
        },
        Hyperplane::Normal(n) => {
            lemma_reflection_across_normal_keeps_norm(value, n@, v);
        },
    }
}

/// Where numbers do not round, reflecting twice gives back what was
/// reflected.
pub proof fn lemma_reflection_is_involution<S: Scalar, const D: usize>(
    value: spec_fn(S) -> real,
    plane: Hyperplane<S, D>,
    v: Seq<S>,
)
    requires
        is_exact(value),
        D >= 1,
        v.len() == D,
        plane.is_unitary(),
    ensures
        plane.reflected(plane.reflected(v)) == v,
{
    broadcast use vstd::array::group_array_axioms;

    match plane {
        Hyperplane::Plane(basis) => {
            lemma_reflection_across_plane_is_involution(value, basis.spec_vectors()@, v);
        },
        Hyperplane::Normal(n) => {
            lemma_reflection_across_normal_is_involution(value, n@, v);
        },
    }
}

/// Where numbers do not round, the direction of a ray that is made from a
/// direction is of norm one.
pub proof fn lemma_new_ray_has_unit_direction<S: Scalar>(value: spec_fn(S) -> real, dir: Seq<S>)
    requires
        is_exact(value),
        is_direction(dir),
    ensures
        norm_squared(normalized(dir)) == S::one_value(),
{
    assert(S::zero_value().below(norm_squared(dir)) == (value(S::zero_value()) < value(
        norm_squared(dir),
    )));
    lemma_normalized_has_norm_one(value, dir);
}

/// Where numbers do not round, the direction of a ray stays of norm one
/// when the ray bounces off a mirror whose tangent there is unitary.
pub proof fn lemma_bounce_keeps_unit_direction<S: Scalar, const D: usize, M: Mirror<S, D> + ?Sized>(
    value: spec_fn(S) -> real,
    mirror: &M,
    eps: S,
    ray: Ray<S, D>,
)
    requires
        is_exact(value),
        D >= 1,
        norm_squared(ray.dir@) == S::one_value(),
        closest(eps.magnitude(), mirror.tangents(ray)) matches Some(tangent)
            && tangent.1.is_unitary(),
    ensures
        bounced(mirror, eps, ray) matches Some(next) && norm_squared(next.dir@) == S::one_value(),
{
    broadcast use vstd::array::group_array_axioms;

    let tangent = closest(eps.magnitude(), mirror.tangents(ray)).unwrap();
    let reflected = tangent.1.reflected(ray.dir@);
    lemma_reflection_keeps_norm(value, tangent.1, ray.dir@);
    assert(value(norm_squared(reflected)) == 1 as real);
    lemma_normalized_has_norm_one(value, reflected);
    assert(reflected.len() == D) by {
        match tangent.1 {
            Hyperplane::Plane(basis) => {
                lemma_projection_len(basis.spec_vectors()@, ray.dir@, D as nat);
            },
            Hyperplane::Normal(n) => {},
        }
    }
    lemma_vector_of::<S, D>(normalized(reflected));
}

} // verus!
