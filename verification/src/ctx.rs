//! The choice of the closest tangent among those a scene reports for a ray.

use crate::hyperplane::Hyperplane;
use crate::ray::Ray;
use crate::scalar::{lemma_below_asymmetric, Scalar};
use crate::vector::Vector;
use vstd::prelude::*;

verus! {

/// A tangent to a mirror where a ray meets it: the distance from the ray's
/// origin to the meeting point, along the ray, and the tangent hyperplane there.
pub type Tangent<S, const D: usize> = (S, Hyperplane<S, D>);

/// The best tangent once `candidate` has been seen after `best`: the
/// candidate if its distance is at least `eps` and strictly below the
/// distance of `best`, where there is one; otherwise `best`.
pub open spec fn better<S: Scalar, const D: usize>(
    eps: S,
    best: Option<Tangent<S, D>>,
    candidate: Tangent<S, D>,
) -> Option<Tangent<S, D>> {
    if eps.at_most(candidate.0) && (best matches Some(b) ==> candidate.0.below(b.0)) {
        Some(candidate)
    } else {
        best
    }
}

/// The best tangent once the first `n` of `candidates` have been seen, in
/// their order, after `best`.
pub open spec fn selected_prefix<S: Scalar, const D: usize>(
    eps: S,
    best: Option<Tangent<S, D>>,
    candidates: Seq<Tangent<S, D>>,
    n: nat,
) -> Option<Tangent<S, D>>
    decreases n,
{
    if n == 0 {
        best
    } else {
        better(eps, selected_prefix(eps, best, candidates, (n - 1) as nat), candidates[n - 1])
    }
}

/// The best tangent once all of `candidates` have been seen, in their
/// order, after `best`.
pub open spec fn selected<S: Scalar, const D: usize>(
    eps: S,
    best: Option<Tangent<S, D>>,
    candidates: Seq<Tangent<S, D>>,
) -> Option<Tangent<S, D>> {
    selected_prefix(eps, best, candidates, candidates.len())
}

/// The closest of `candidates` that is at least `eps` away, the first of
/// them where several are equally close; `None` where none is that far.
pub open spec fn closest<S: Scalar, const D: usize>(
    eps: S,
    candidates: Seq<Tangent<S, D>>,
) -> Option<Tangent<S, D>> {
    selected(eps, None, candidates)
}

/// The sequence of what is there: one element or none.
pub open spec fn present<T>(item: Option<T>) -> Seq<T> {
    match item {
        Some(x) => seq![x],
        None => Seq::empty(),
    }
}

/// Each distance with its normal, as a tangent.
pub open spec fn as_tangents<S: Scalar, const D: usize>(normals: Seq<(S, Vector<S, D>)>) -> Seq<
    Tangent<S, D>,
> {
    Seq::new(normals.len(), |i: int| (normals[i].0, Hyperplane::Normal(normals[i].1)))
}

/// Seeing the candidates of `a`, then those of `b`, is seeing those of `a + b`.
pub proof fn lemma_selected_concat<S: Scalar, const D: usize>(
    eps: S,
    best: Option<Tangent<S, D>>,
    a: Seq<Tangent<S, D>>,
    b: Seq<Tangent<S, D>>,
)
    ensures
        selected(eps, best, a + b) == selected(eps, selected(eps, best, a), b),
{
    lemma_selected_prefix_concat(eps, best, a, b, b.len());
    assert((a + b).len() == a.len() + b.len());
}

proof fn lemma_selected_prefix_concat<S: Scalar, const D: usize>(
    eps: S,
    best: Option<Tangent<S, D>>,
    a: Seq<Tangent<S, D>>,
    b: Seq<Tangent<S, D>>,
    n: nat,
)
    requires
        n <= b.len(),
    ensures
        selected_prefix(eps, best, a + b, a.len() + n) == selected_prefix(
            eps,
            selected(eps, best, a),
            b,
            n,
        ),
    decreases n,
{
    if n == 0 {
        lemma_selected_prefix_depends_on_prefix(eps, best, a + b, a, a.len());
    } else {
        lemma_selected_prefix_concat(eps, best, a, b, (n - 1) as nat);
        assert((a + b)[a.len() + n - 1] == b[n - 1]);
    }
}

/// What is selected among the first `n` candidates depends on these alone.
pub proof fn lemma_selected_prefix_depends_on_prefix<S: Scalar, const D: usize>(
    eps: S,
    best: Option<Tangent<S, D>>,
    a: Seq<Tangent<S, D>>,
    b: Seq<Tangent<S, D>>,
    n: nat,
)
    requires
        n <= a.len(),
        n <= b.len(),
        forall|i: int| 0 <= i < n ==> a[i] == b[i],
    ensures
        selected_prefix(eps, best, a, n) == selected_prefix(eps, best, b, n),
    decreases n,
{
    if n > 0 {
        lemma_selected_prefix_depends_on_prefix(eps, best, a, b, (n - 1) as nat);
    }
}

/// Seeing one more candidate.
pub proof fn lemma_selected_push<S: Scalar, const D: usize>(
    eps: S,
    best: Option<Tangent<S, D>>,
    a: Seq<Tangent<S, D>>,
    t: Tangent<S, D>,
)
    ensures
        selected(eps, best, a.push(t)) == better(eps, selected(eps, best, a), t),
{
    lemma_selected_prefix_depends_on_prefix(eps, best, a.push(t), a, a.len());
}

/// What collects the tangents that a scene reports for one ray, and keeps the
/// closest of them that is at least a threshold away.
///
/// The threshold keeps a ray that has just bounced off a mirror from meeting
/// that same mirror again at distance zero, or at whatever small distance
/// rounding makes of zero.
pub struct SimulationCtx<'a, S, const D: usize> {
    ray: &'a Ray<S, D>,
    closest: Option<Tangent<S, D>>,
    epsilon: S,
}

impl<'a, S: Scalar, const D: usize> SimulationCtx<'a, S, D> {
    /// The ray that the tangents are reported for.
    pub closed spec fn spec_ray(&self) -> Ray<S, D> {
        *self.ray
    }

    /// The threshold: the least distance at which a tangent counts.
    pub closed spec fn eps(&self) -> S {
        self.epsilon
    }

    /// The best tangent seen so far.
    pub closed spec fn best(&self) -> Option<Tangent<S, D>> {
        self.closest
    }

    /// A context for `ray` that has seen no tangent yet. Its threshold is
    /// the magnitude of `epsilon`.
    pub fn new(ray: &'a Ray<S, D>, epsilon: S) -> (r: Self)
        ensures
            r.spec_ray() == *ray,
            r.eps() == epsilon.magnitude(),
            r.best().is_none(),
    {
        SimulationCtx { ray, closest: None, epsilon: epsilon.abs() }
    }

    /// Reports a tangent at distance `dist` along the ray. It is kept if
    /// `dist` is at least the threshold and strictly below the distance of
    /// the tangent kept so far: of two tangents equally close, the one
    /// reported first stays.
    pub fn add_tangent(&mut self, dist: S, tangent_direction: Hyperplane<S, D>)
        ensures
            final(self).spec_ray() == old(self).spec_ray(),
            final(self).eps() == old(self).eps(),
            final(self).best() == better(old(self).eps(), old(self).best(), (dist, tangent_direction)),
    {
        if self.epsilon.le(dist) {
            let closer = match &self.closest {
                Some(kept) => dist.lt(kept.0),
                None => true,
            };
            if closer {
                self.closest = Some((dist, tangent_direction));
            }
        }
    }

    /// Reports every tangent of `tangents`, in their order.
    pub fn add_tangents(&mut self, tangents: &Vec<Tangent<S, D>>)
        ensures
            final(self).spec_ray() == old(self).spec_ray(),
            final(self).eps() == old(self).eps(),
            final(self).best() == selected(old(self).eps(), old(self).best(), tangents@),
    {
        let mut i: usize = 0;
        while i < tangents.len()
            invariant
                i <= tangents.len(),
                self.spec_ray() == old(self).spec_ray(),
                self.eps() == old(self).eps(),
                self.best() == selected_prefix(
                    old(self).eps(),
                    old(self).best(),
                    tangents@,
                    i as nat,
                ),
            decreases tangents.len() - i,
        {
            let t = tangents[i];
            self.add_tangent(t.0, t.1);
            i += 1;
        }
    }

    /// Reports each distance of `normals` with its normal, in their order.
    pub fn add_normals(&mut self, normals: &Vec<(S, Vector<S, D>)>)
        ensures
            final(self).spec_ray() == old(self).spec_ray(),
            final(self).eps() == old(self).eps(),
            final(self).best() == selected(old(self).eps(), old(self).best(), as_tangents(normals@)),
    {
        let mut i: usize = 0;
        while i < normals.len()
            invariant
                i <= normals.len(),
                self.spec_ray() == old(self).spec_ray(),
                self.eps() == old(self).eps(),
                self.best() == selected(
                    old(self).eps(),
                    old(self).best(),
                    as_tangents(normals@.subrange(0, i as int)),
                ),
            decreases normals.len() - i,
        {
            let (d, n) = normals[i];
            proof {
                let before = as_tangents(normals@.subrange(0, i as int));
                lemma_selected_push(old(self).eps(), old(self).best(), before, (d, Hyperplane::Normal(n)));
                assert(as_tangents(normals@.subrange(0, i + 1)) =~= before.push(
                    (d, Hyperplane::Normal(n)),
                ));
            }
            self.add_tangent(d, Hyperplane::Normal(n));
            i += 1;
        }
        assert(normals@.subrange(0, normals.len() as int) =~= normals@);
    }

    /// The ray that the tangents are reported for.
    pub fn ray(&self) -> (r: &'a Ray<S, D>)
        ensures
            *r == self.spec_ray(),
    {
        self.ray
    }

    /// Ends the query: hands out the tangent that was kept, if any, and
    /// leaves the context as if it had seen none.
    pub fn reset_closest(&mut self) -> (r: Option<Tangent<S, D>>)
        ensures
            r == old(self).best(),
            final(self).best().is_none(),
            final(self).spec_ray() == old(self).spec_ray(),
            final(self).eps() == old(self).eps(),
    {
        let kept = self.closest;
        self.closest = None;
        kept
    }

    /// The closest of `tangents` that is at least the threshold away, the
    /// first of them where several are equally close. What the context has
    /// kept so far plays no part and is left alone.
    pub fn closest(&self, tangents: &Vec<Tangent<S, D>>) -> (r: Option<Tangent<S, D>>)
        ensures
            r == closest(self.eps(), tangents@),
    {
        let mut scratch = SimulationCtx { ray: self.ray, closest: None, epsilon: self.epsilon };
        scratch.add_tangents(tangents);
        scratch.reset_closest()
    }
}

/// What is selected is one of the candidates, at least `eps` away, and no
/// candidate that is at least `eps` away is strictly closer.
pub proof fn lemma_closest_is_minimal<S: Scalar, const D: usize>(
    eps: S,
    candidates: Seq<Tangent<S, D>>,
)
    ensures
        match closest(eps, candidates) {
            Some(kept) => {
                &&& exists|i: int| 0 <= i < candidates.len() && candidates[i] == kept
                &&& eps.at_most(kept.0)
                &&& forall|j: int|
                    0 <= j < candidates.len() && eps.at_most((#[trigger] candidates[j]).0)
                        ==> !candidates[j].0.below(kept.0)
            },
            None => forall|j: int|
                0 <= j < candidates.len() ==> !eps.at_most((#[trigger] candidates[j]).0),
        },
{
    lemma_selected_prefix_is_minimal(eps, candidates, candidates.len());
}

proof fn lemma_selected_prefix_is_minimal<S: Scalar, const D: usize>(
    eps: S,
    candidates: Seq<Tangent<S, D>>,
    n: nat,
)
    requires
        n <= candidates.len(),
    ensures
        match selected_prefix(eps, None, candidates, n) {
            Some(kept) => {
                &&& exists|i: int| 0 <= i < n && candidates[i] == kept
                &&& eps.at_most(kept.0)
                &&& forall|j: int|
                    0 <= j < n && eps.at_most((#[trigger] candidates[j]).0)
                        ==> !candidates[j].0.below(kept.0)
            },
            None => forall|j: int| 0 <= j < n ==> !eps.at_most((#[trigger] candidates[j]).0),
        },
    decreases n,
{
    if n > 0 {
        lemma_selected_prefix_is_minimal(eps, candidates, (n - 1) as nat);
        let before = selected_prefix(eps, None, candidates, (n - 1) as nat);
        let c = candidates[n - 1];
        if eps.at_most(c.0) && (before matches Some(b) ==> c.0.below(b.0)) {
            // the candidate is kept: what was not closer than the tangent
            // kept so far is not closer than the candidate either
            assert(candidates[n - 1] == c);
            assert forall|j: int| 0 <= j < n && eps.at_most((#[trigger] candidates[j]).0) implies
                !candidates[j].0.below(c.0) by {
                if candidates[j].0.below(c.0) {
                    if j == n - 1 {
                        lemma_below_asymmetric(c.0, c.0);
                    } else {
                        let b = before.unwrap();
                        S::lemma_below_is_transitive(candidates[j].0, c.0, b.0);
                    }
                }
            }
        } else if let Some(b) = before {
            let i = choose|i: int| 0 <= i < n - 1 && candidates[i] == b;
            assert(candidates[i] == b);
        }
    }
}

/// Whether candidate `m` is at least `eps` away and strictly closer than
/// every other candidate that is at least `eps` away.
pub open spec fn is_unique_minimum<S: Scalar, const D: usize>(
    eps: S,
    candidates: Seq<Tangent<S, D>>,
    m: int,
) -> bool {
    &&& 0 <= m < candidates.len()
    &&& eps.at_most(candidates[m].0)
    &&& forall|j: int|
        0 <= j < candidates.len() && j != m && eps.at_most(candidates[j].0)
            ==> candidates[m].0.below(#[trigger] candidates[j].0)
}

/// A tangent that is reported is selected if it is at least `eps` away and
/// strictly closer than every other tangent that is at least `eps` away.
pub proof fn lemma_closest_is_unique_minimum<S: Scalar, const D: usize>(
    eps: S,
    candidates: Seq<Tangent<S, D>>,
    m: int,
)
    requires
        is_unique_minimum(eps, candidates, m),
    ensures
        closest(eps, candidates) == Some(candidates[m]),
{
    lemma_selected_prefix_unique_minimum(eps, candidates, m, candidates.len());
}

proof fn lemma_selected_prefix_unique_minimum<S: Scalar, const D: usize>(
    eps: S,
    candidates: Seq<Tangent<S, D>>,
    m: int,
    n: nat,
)
    requires
        is_unique_minimum(eps, candidates, m),
        n <= candidates.len(),
    ensures
        n > m ==> selected_prefix(eps, None, candidates, n) == Some(candidates[m]),
        n <= m ==> match selected_prefix(eps, None, candidates, n) {
            Some(kept) => exists|j: int| 0 <= j < n && kept == candidates[j] && eps.at_most(kept.0),
            None => true,
        },
    decreases n,
{
    if n > 0 {
        lemma_selected_prefix_unique_minimum(eps, candidates, m, (n - 1) as nat);
        let before = selected_prefix(eps, None, candidates, (n - 1) as nat);
        let c = candidates[n - 1];
        if n - 1 == m {
            if let Some(kept) = before {
                let j = choose|j: int| 0 <= j < n - 1 && kept == candidates[j] && eps.at_most(kept.0);
                assert(candidates[m].0.below(candidates[j].0));
            }
        } else if n - 1 > m {
            if eps.at_most(c.0) {
                assert(candidates[m].0.below(candidates[n - 1].0));
                lemma_below_asymmetric(candidates[m].0, c.0);
            }
        } else {
            if better(eps, before, c) == Some(c) {
                assert(c == candidates[n - 1] && eps.at_most(c.0));
            }
        }
    }
}

/// Where one candidate is strictly closer than all the others, the order
/// in which two lots of candidates are seen does not matter.
pub proof fn lemma_closest_commutes<S: Scalar, const D: usize>(
    eps: S,
    a: Seq<Tangent<S, D>>,
    b: Seq<Tangent<S, D>>,
    m: int,
)
    requires
        is_unique_minimum(eps, a + b, m),
    ensures
        closest(eps, a + b) == closest(eps, b + a),
{
    let ab = a + b;
    let ba = b + a;
    let swapped = if m < a.len() {
        b.len() + m
    } else {
        m - a.len()
    };
    assert(ba[swapped] == ab[m]);
    assert forall|j: int|
        0 <= j < ba.len() && j != swapped && eps.at_most(ba[j].0) implies ba[swapped].0.below(
        #[trigger] ba[j].0,
    ) by {
        let back = if j < b.len() {
            a.len() + j
        } else {
            j - b.len()
        };
        assert(ba[j] == ab[back]);
        assert(ab[m].0.below(ab[back].0));
    }
    lemma_closest_is_unique_minimum(eps, ab, m);
    lemma_closest_is_unique_minimum(eps, ba, swapped);
}

/// Where no tangent that is reported is at least `eps` away, and so where
/// none is reported at all, none is selected.
pub proof fn lemma_closest_none_below_threshold<S: Scalar, const D: usize>(
    eps: S,
    candidates: Seq<Tangent<S, D>>,
)
    requires
        forall|j: int| 0 <= j < candidates.len() ==> (#[trigger] candidates[j]).0.below(eps),
    ensures
        closest(eps, candidates).is_none(),
{
    lemma_selected_prefix_none_below_threshold(eps, candidates, candidates.len());
}

proof fn lemma_selected_prefix_none_below_threshold<S: Scalar, const D: usize>(
    eps: S,
    candidates: Seq<Tangent<S, D>>,
    n: nat,
)
    requires
        n <= candidates.len(),
        forall|j: int| 0 <= j < candidates.len() ==> (#[trigger] candidates[j]).0.below(eps),
    ensures
        selected_prefix(eps, None, candidates, n).is_none(),
    decreases n,
{
    if n > 0 {
        lemma_selected_prefix_none_below_threshold(eps, candidates, (n - 1) as nat);
        assert(candidates[n - 1].0.below(eps));
        S::lemma_below_excludes_at_least(candidates[n - 1].0, eps);
    }
}

} // verus!
