//! Scenes whose make-up is only known when the program runs: read from a
//! file, say.

use crate::ctx::{lemma_selected_concat, selected, SimulationCtx, Tangent};
use crate::cylinder::Cylinder;
use crate::linalg::LinearAlgebra;
use crate::mirror::Mirror;
use crate::plane::PlaneMirror;
use crate::ray::Ray;
use crate::simplex::Simplex;
use crate::sphere::Sphere;
use vstd::prelude::*;

verus! {

/// A mirror of any of the kinds that this crate knows, or a list of such.
pub enum Scene<S, const D: usize> {
    Plane(PlaneMirror<S, D>),
    Simplex(Simplex<S, D>),
    Sphere(Sphere<S, D>),
    Cylinder(Cylinder<S, D>),
    List(Vec<Scene<S, D>>),
}

/// What a scene holds, as a mathematical value.
pub ghost enum Shape<S, const D: usize> {
    Plane(PlaneMirror<S, D>),
    Simplex(Simplex<S, D>),
    Sphere(Sphere<S, D>),
    Cylinder(Cylinder<S, D>),
    List(Seq<Shape<S, D>>),
}

impl<S, const D: usize> View for Scene<S, D> {
    type V = Shape<S, D>;

    open spec fn view(&self) -> Shape<S, D>
        decreases self,
    {
        match self {
            Scene::Plane(m) => Shape::Plane(*m),
            Scene::Simplex(m) => Shape::Simplex(*m),
            Scene::Sphere(m) => Shape::Sphere(*m),
            Scene::Cylinder(m) => Shape::Cylinder(*m),
            Scene::List(scenes) => Shape::List(views_of(scenes@)),
        }
    }
}

/// What each scene of `scenes` holds.
pub open spec fn views_of<S, const D: usize>(scenes: Seq<Scene<S, D>>) -> Seq<Shape<S, D>>
    decreases scenes,
{
    Seq::new(
        scenes.len(),
        |i: int|
            if 0 <= i < scenes.len() {
                scenes[i]@
            } else {
                Shape::List(Seq::empty())
            },
    )
}

impl<S: LinearAlgebra, const D: usize> Scene<S, D> {
    /// The tangents to the scene along `ray`: those of the mirror, or those
    /// of every mirror of the list, one mirror after the other.
    pub open spec fn all_tangents(&self, ray: Ray<S, D>) -> Seq<Tangent<S, D>>
        decreases self, 0nat,
    {
        match self {
            Scene::Plane(m) => m.tangents(ray),
            Scene::Simplex(m) => m.tangents(ray),
            Scene::Sphere(m) => m.tangents(ray),
            Scene::Cylinder(m) => m.tangents(ray),
            Scene::List(scenes) => Self::list_tangents(scenes@, ray, scenes@.len()),
        }
    }

    /// The tangents of the first `n` scenes of `scenes`, one after the other.
    pub open spec fn list_tangents(scenes: Seq<Scene<S, D>>, ray: Ray<S, D>, n: nat) -> Seq<
        Tangent<S, D>,
    >
        decreases scenes, n,
    {
        if n == 0 || n > scenes.len() {
            Seq::empty()
        } else {
            Self::list_tangents(scenes, ray, (n - 1) as nat) + scenes[n - 1].all_tangents(ray)
        }
    }

    fn report(&self, ctx: &mut SimulationCtx<'_, S, D>)
        requires
            D >= 1,
        ensures
            final(ctx).spec_ray() == old(ctx).spec_ray(),
            final(ctx).eps() == old(ctx).eps(),
            final(ctx).best() == selected(
                old(ctx).eps(),
                old(ctx).best(),
                self.all_tangents(old(ctx).spec_ray()),
            ),
        decreases self,
    {
        match self {
            Scene::Plane(m) => m.add_tangents(ctx),
            Scene::Simplex(m) => m.add_tangents(ctx),
            Scene::Sphere(m) => m.add_tangents(ctx),
            Scene::Cylinder(m) => m.add_tangents(ctx),
            Scene::List(scenes) => {
                let ghost ray = ctx.spec_ray();
                let mut i: usize = 0;
                while i < scenes.len()
                    invariant
                        D >= 1,
                        i <= scenes.len(),
                        *self == Scene::List(*scenes),
                        ray == old(ctx).spec_ray(),
                        ctx.spec_ray() == old(ctx).spec_ray(),
                        ctx.eps() == old(ctx).eps(),
                        ctx.best() == selected(
                            old(ctx).eps(),
                            old(ctx).best(),
                            Self::list_tangents(scenes@, ray, i as nat),
                        ),
                    decreases scenes.len() - i,
                {
                    proof {
                        vstd::std_specs::vec::axiom_vec_index_decreases(*scenes, i as int);
                        assert(decreases_to!(*self => self->List_0));
                        lemma_selected_concat(
                            old(ctx).eps(),
                            old(ctx).best(),
                            Self::list_tangents(scenes@, ray, i as nat),
                            scenes@[i as int].all_tangents(ray),
                        );
                    }
                    scenes[i].report(ctx);
                    i += 1;
                }
            },
        }
    }
}

impl<S: LinearAlgebra, const D: usize> Mirror<S, D> for Scene<S, D> {
    open spec fn tangents(&self, ray: Ray<S, D>) -> Seq<Tangent<S, D>> {
        self.all_tangents(ray)
    }

    fn add_tangents(&self, ctx: &mut SimulationCtx<'_, S, D>) {
        self.report(ctx);
    }
}

} // verus!
