//! Mirrors: whatever can tell where a ray meets it, and how it is tangent
//! there. Collections of mirrors are mirrors.

use crate::ctx::{
    closest, is_unique_minimum, lemma_closest_commutes, lemma_selected_concat, selected,
    SimulationCtx, Tangent,
};
use crate::ray::Ray;
use crate::scalar::Scalar;
use std::rc::Rc;
use std::sync::Arc;
use vstd::prelude::*;

verus! {

broadcast use vstd::array::group_array_axioms;

/// A reflecting surface of `D`-dimensional space, `D` being at least one.
pub trait Mirror<S: Scalar, const D: usize> {
    /// The tangents to this mirror at the points where the line of `ray`
    /// meets it, in the order in which [`Mirror::add_tangents`] reports
    /// them. Points behind the ray's origin are among them, at negative
    /// distances. What a mirror reports for a ray depends on the two alone.
    spec fn tangents(&self, ray: Ray<S, D>) -> Seq<Tangent<S, D>>;

    /// Reports to `ctx` the tangents to this mirror for the ray of `ctx`.
    fn add_tangents(&self, ctx: &mut SimulationCtx<'_, S, D>)
        requires
            D >= 1,
        ensures
            final(ctx).spec_ray() == old(ctx).spec_ray(),
            final(ctx).eps() == old(ctx).eps(),
            final(ctx).best() == selected(
                old(ctx).eps(),
                old(ctx).best(),
                self.tangents(old(ctx).spec_ray()),
            ),
    ;
}

/// The tangents of the first `n` of `mirrors`, one mirror after the other.
pub open spec fn tangents_of_first<S: Scalar, const D: usize, T: Mirror<S, D>>(
    mirrors: Seq<T>,
    ray: Ray<S, D>,
    n: nat,
) -> Seq<Tangent<S, D>>
    decreases n,
{
    if n == 0 {
        Seq::empty()
    } else {
        tangents_of_first(mirrors, ray, (n - 1) as nat) + mirrors[n - 1].tangents(ray)
    }
}

/// The tangents of all of `mirrors`, one mirror after the other.
pub open spec fn tangents_of_all<S: Scalar, const D: usize, T: Mirror<S, D>>(
    mirrors: Seq<T>,
    ray: Ray<S, D>,
) -> Seq<Tangent<S, D>> {
    tangents_of_first(mirrors, ray, mirrors.len())
}

/// Reports the tangents of every mirror of `mirrors`, in their order.
pub fn add_tangents_of_all<S: Scalar, const D: usize, T: Mirror<S, D>>(
    mirrors: &[T],
    ctx: &mut SimulationCtx<'_, S, D>,
)
    requires
        D >= 1,
    ensures
        final(ctx).spec_ray() == old(ctx).spec_ray(),
        final(ctx).eps() == old(ctx).eps(),
        final(ctx).best() == selected(
            old(ctx).eps(),
            old(ctx).best(),
            tangents_of_all(mirrors@, old(ctx).spec_ray()),
        ),
{
    let ghost ray = ctx.spec_ray();
    let mut i: usize = 0;
    while i < mirrors.len()
        invariant
            D >= 1,
            i <= mirrors.len(),
            ray == old(ctx).spec_ray(),
            ctx.spec_ray() == old(ctx).spec_ray(),
            ctx.eps() == old(ctx).eps(),
            ctx.best() == selected(
                old(ctx).eps(),
                old(ctx).best(),
                tangents_of_first(mirrors@, ray, i as nat),
            ),
        decreases mirrors.len() - i,
    {
        proof {
            lemma_selected_concat(
                old(ctx).eps(),
                old(ctx).best(),
                tangents_of_first(mirrors@, ray, i as nat),
                mirrors@[i as int].tangents(ray),
            );
        }
        mirrors[i].add_tangents(ctx);
        i += 1;
    }
}

impl<S: Scalar, const D: usize, T: Mirror<S, D>> Mirror<S, D> for Vec<T> {
    open spec fn tangents(&self, ray: Ray<S, D>) -> Seq<Tangent<S, D>> {
        tangents_of_all(self@, ray)
    }

    fn add_tangents(&self, ctx: &mut SimulationCtx<'_, S, D>) {
        add_tangents_of_all(self.as_slice(), ctx);
    }
}

impl<S: Scalar, const D: usize, T: Mirror<S, D>> Mirror<S, D> for [T] {
    open spec fn tangents(&self, ray: Ray<S, D>) -> Seq<Tangent<S, D>> {
        tangents_of_all(self@, ray)
    }

    fn add_tangents(&self, ctx: &mut SimulationCtx<'_, S, D>) {
        add_tangents_of_all(self, ctx);
    }
}

impl<S: Scalar, const D: usize, const N: usize, T: Mirror<S, D>> Mirror<S, D> for [T; N] {
    open spec fn tangents(&self, ray: Ray<S, D>) -> Seq<Tangent<S, D>> {
        tangents_of_all(self@, ray)
    }

    fn add_tangents(&self, ctx: &mut SimulationCtx<'_, S, D>) {
        add_tangents_of_all(self.as_slice(), ctx);
    }
}

impl<S: Scalar, const D: usize, T: Mirror<S, D> + ?Sized> Mirror<S, D> for Box<T> {
    open spec fn tangents(&self, ray: Ray<S, D>) -> Seq<Tangent<S, D>> {
        (**self).tangents(ray)
    }

    fn add_tangents(&self, ctx: &mut SimulationCtx<'_, S, D>) {
        (**self).add_tangents(ctx);
    }
}

impl<S: Scalar, const D: usize, T: Mirror<S, D> + ?Sized> Mirror<S, D> for Rc<T> {
    open spec fn tangents(&self, ray: Ray<S, D>) -> Seq<Tangent<S, D>> {
        (**self).tangents(ray)
    }

    fn add_tangents(&self, ctx: &mut SimulationCtx<'_, S, D>) {
        (**self).add_tangents(ctx);
    }
}

impl<S: Scalar, const D: usize, T: Mirror<S, D> + ?Sized> Mirror<S, D> for Arc<T> {
    open spec fn tangents(&self, ray: Ray<S, D>) -> Seq<Tangent<S, D>> {
        (**self).tangents(ray)
    }

    fn add_tangents(&self, ctx: &mut SimulationCtx<'_, S, D>) {
        (**self).add_tangents(ctx);
    }
}

impl<'m, S: Scalar, const D: usize, T: Mirror<S, D> + ?Sized> Mirror<S, D> for &'m T {
    open spec fn tangents(&self, ray: Ray<S, D>) -> Seq<Tangent<S, D>> {
        (**self).tangents(ray)
    }

    fn add_tangents(&self, ctx: &mut SimulationCtx<'_, S, D>) {
        (**self).add_tangents(ctx);
    }
}

impl<'m, S: Scalar, const D: usize, T: Mirror<S, D> + ?Sized> Mirror<S, D> for &'m mut T {
    open spec fn tangents(&self, ray: Ray<S, D>) -> Seq<Tangent<S, D>> {
        (**self).tangents(ray)
    }

    fn add_tangents(&self, ctx: &mut SimulationCtx<'_, S, D>) {
        (**self).add_tangents(ctx);
    }
}

impl<S: Scalar, const D: usize, A: Mirror<S, D>> Mirror<S, D> for (A,) {
    open spec fn tangents(&self, ray: Ray<S, D>) -> Seq<Tangent<S, D>> {
        self.0.tangents(ray)
    }

    fn add_tangents(&self, ctx: &mut SimulationCtx<'_, S, D>) {
        self.0.add_tangents(ctx);
    }
}

impl<S: Scalar, const D: usize, A: Mirror<S, D>, B: Mirror<S, D>> Mirror<S, D> for (A, B) {
    open spec fn tangents(&self, ray: Ray<S, D>) -> Seq<Tangent<S, D>> {
        self.0.tangents(ray) + self.1.tangents(ray)
    }

    fn add_tangents(&self, ctx: &mut SimulationCtx<'_, S, D>) {
        proof {
            let ray = ctx.spec_ray();
            lemma_selected_concat(ctx.eps(), ctx.best(), self.0.tangents(ray), self.1.tangents(ray));
        }
        self.0.add_tangents(ctx);
        self.1.add_tangents(ctx);
    }
}

impl<
    S: Scalar,
    const D: usize,
    A: Mirror<S, D>,
    B: Mirror<S, D>,
    C: Mirror<S, D>,
> Mirror<S, D> for (A, B, C) {
    open spec fn tangents(&self, ray: Ray<S, D>) -> Seq<Tangent<S, D>> {
        self.0.tangents(ray) + self.1.tangents(ray) + self.2.tangents(ray)
    }

    fn add_tangents(&self, ctx: &mut SimulationCtx<'_, S, D>) {
        proof {
            let ray = ctx.spec_ray();
            let ab = self.0.tangents(ray) + self.1.tangents(ray);
            lemma_selected_concat(ctx.eps(), ctx.best(), self.0.tangents(ray), self.1.tangents(ray));
            lemma_selected_concat(ctx.eps(), ctx.best(), ab, self.2.tangents(ray));
        }
        self.0.add_tangents(ctx);
        self.1.add_tangents(ctx);
        self.2.add_tangents(ctx);
    }
}

impl<
    S: Scalar,
    const D: usize,
    A: Mirror<S, D>,
    B: Mirror<S, D>,
    C: Mirror<S, D>,
    E: Mirror<S, D>,
> Mirror<S, D> for (A, B, C, E) {
    open spec fn tangents(&self, ray: Ray<S, D>) -> Seq<Tangent<S, D>> {
        self.0.tangents(ray) + self.1.tangents(ray) + self.2.tangents(ray) + self.3.tangents(ray)
    }

    fn add_tangents(&self, ctx: &mut SimulationCtx<'_, S, D>) {
        proof {
            let ray = ctx.spec_ray();
            let ab = self.0.tangents(ray) + self.1.tangents(ray);
            let abc = ab + self.2.tangents(ray);
            lemma_selected_concat(ctx.eps(), ctx.best(), self.0.tangents(ray), self.1.tangents(ray));
            lemma_selected_concat(ctx.eps(), ctx.best(), ab, self.2.tangents(ray));
            lemma_selected_concat(ctx.eps(), ctx.best(), abc, self.3.tangents(ray));
        }
        self.0.add_tangents(ctx);
        self.1.add_tangents(ctx);
        self.2.add_tangents(ctx);
        self.3.add_tangents(ctx);
    }
}

/// However the mirrors of a scene are grouped, the scene reports the same
/// tangents, in the same order.
pub proof fn lemma_composition_is_associative<
    S: Scalar,
    const D: usize,
    A: Mirror<S, D>,
    B: Mirror<S, D>,
    C: Mirror<S, D>,
>(a: A, b: B, c: C, ray: Ray<S, D>)
    ensures
        ((a, b), c).tangents(ray) == (a, (b, c)).tangents(ray),
        ((a, b), c).tangents(ray) == (a, b, c).tangents(ray),
{
    let (ta, tb, tc) = (a.tangents(ray), b.tangents(ray), c.tangents(ray));
    assert((ta + tb) + tc =~= ta + (tb + tc));
}

/// Where one tangent is strictly closer than all the others, the order of
/// two mirrors in a scene does not matter to where a ray bounces next.
pub proof fn lemma_composition_commutes<S: Scalar, const D: usize, A: Mirror<S, D>, B: Mirror<S, D>>(
    a: A,
    b: B,
    ray: Ray<S, D>,
    eps: S,
    m: int,
)
    requires
        is_unique_minimum(eps, (a, b).tangents(ray), m),
    ensures
        closest(eps, (a, b).tangents(ray)) == closest(eps, (b, a).tangents(ray)),
{
    lemma_closest_commutes(eps, a.tangents(ray), b.tangents(ray), m);
}

/// `either::Either`: one value or another, `Left(L)` or `Right(R)`.
#[verifier::external_type_specification]
#[verifier::reject_recursive_types(L)]
#[verifier::reject_recursive_types(R)]
pub struct ExEither<L, R>(either::Either<L, R>);

impl<S: Scalar, const D: usize, L: Mirror<S, D>, R: Mirror<S, D>> Mirror<S, D> for either::Either<
    L,
    R,
> {
    open spec fn tangents(&self, ray: Ray<S, D>) -> Seq<Tangent<S, D>> {
        match self {
            either::Either::Left(m) => m.tangents(ray),
            either::Either::Right(m) => m.tangents(ray),
        }
    }

    fn add_tangents(&self, ctx: &mut SimulationCtx<'_, S, D>) {
        match self {
            either::Either::Left(m) => m.add_tangents(ctx),
            either::Either::Right(m) => m.add_tangents(ctx),
        }
    }
}

impl<S: Scalar, const D: usize> Ray<S, D> {
    /// The closest tangent to `mirror` along this ray that is at least the
    /// magnitude of `eps` away from its origin, if there is one: where the
    /// ray bounces next, and off what.
    ///
    /// `eps` has to be large enough to cover the rounding errors of `S`, so
    /// that the ray does not meet again the mirror it has just left, and
    /// small enough not to hide a mirror that is really there.
    pub fn closest_intersection<M: Mirror<S, D> + ?Sized>(&self, mirror: &M, eps: S) -> (r: Option<
        Tangent<S, D>,
    >)
        requires
            D >= 1,
        ensures
            r == closest(eps.magnitude(), mirror.tangents(*self)),
    {
        let mut ctx = SimulationCtx::new(self, eps);
        mirror.add_tangents(&mut ctx);
        ctx.reset_closest()
    }
}

} // verus!
