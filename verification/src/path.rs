//! The path of a ray through a scene: bounce after bounce, until the ray
//! leaves the scene, comes back on its own tracks, or has bounced as often as
//! it was allowed to.

use crate::ctx::closest;
use crate::mirror::Mirror;
use crate::ray::Ray;
use crate::scalar::Scalar;
use crate::vector::{
    difference_of, lemma_vector_of_view, norm, normalized, vector_of, Vector,
};
use vstd::prelude::*;

verus! {

/// Whether a ray that comes from the last point of `path` and arrives at
/// `new_pt` is where it was when it arrived at `path[i + 1]` from `path[i]`:
/// `new_pt` is within `eps` of `path[i + 1]`, and the two directions of
/// arrival, each of norm one, are within `eps` of each other.
pub open spec fn closes_loop<S: Scalar, const D: usize>(
    path: Seq<Vector<S, D>>,
    new_pt: Seq<S>,
    eps: S,
    i: int,
) -> bool {
    let current_dir = normalized(difference_of(new_pt, path.last()@));
    let impact_dir = normalized(difference_of(path[i + 1]@, path[i]@));
    &&& norm(difference_of(new_pt, path[i + 1]@)).at_most(eps)
    &&& norm(difference_of(impact_dir, current_dir)).at_most(eps)
}

/// Whether `i` is the first index at which `new_pt` closes a loop of `path`.
pub open spec fn is_loop_start<S: Scalar, const D: usize>(
    path: Seq<Vector<S, D>>,
    new_pt: Seq<S>,
    eps: S,
    i: int,
) -> bool {
    &&& 0 <= i
    &&& i + 2 < path.len()
    &&& closes_loop(path, new_pt, eps, i)
    &&& forall|j: int| 0 <= j < i ==> !closes_loop(path, new_pt, eps, j)
}

/// The first index at which `new_pt` closes a loop of `path`, if there is one.
pub open spec fn loop_start<S: Scalar, const D: usize>(
    path: Seq<Vector<S, D>>,
    new_pt: Seq<S>,
    eps: S,
) -> Option<usize> {
    if exists|i: int| is_loop_start(path, new_pt, eps, i) {
        Some((choose|i: int| is_loop_start(path, new_pt, eps, i)) as usize)
    } else {
        None
    }
}

/// There is at most one first index.
pub proof fn lemma_loop_start_unique<S: Scalar, const D: usize>(
    path: Seq<Vector<S, D>>,
    new_pt: Seq<S>,
    eps: S,
    i: int,
    j: int,
)
    requires
        is_loop_start(path, new_pt, eps, i),
        is_loop_start(path, new_pt, eps, j),
    ensures
        i == j,
{
}

/// Tells whether a ray that has gone through the points of `path`, in their
/// order, and arrives at `new_pt` has entered a loop: whether it has arrived
/// before at a point within `eps` of `new_pt`, from a direction within `eps`
/// of the one it arrives from now. If so, the result is the index in `path`
/// of the point that the ray left when it first did.
pub fn loop_index<S: Scalar, const D: usize>(path: &[Vector<S, D>], new_pt: &Vector<S, D>, eps: S) -> (r:
    Option<usize>)
    ensures
        r == loop_start(path@, new_pt@, eps),
        r matches Some(i) ==> is_loop_start(path@, new_pt@, eps, i as int),
        r.is_none() ==> forall|j: int| 0 <= j && j + 2 < path@.len() ==> !closes_loop(path@, new_pt@, eps, j),
{
    let n = path.len();
    if n < 3 {
        return None;
    }
    let last_pt = &path[n - 1];
    let current_dir = new_pt.sub(last_pt).normalize();
    let mut i: usize = 0;
    while i + 2 < n
        invariant
            n == path@.len(),
            n >= 3,
            i + 2 <= n,
            *last_pt == path@.last(),
            current_dir@ == normalized(difference_of(new_pt@, path@.last()@)),
            forall|j: int| 0 <= j < i ==> !closes_loop(path@, new_pt@, eps, j),
        decreases n - i,
    {
        let this_pt = &path[i];
        let next_pt = &path[i + 1];
        let impact_dir = next_pt.sub(this_pt).normalize();
        if new_pt.sub(next_pt).norm().le(eps) && impact_dir.sub(&current_dir).norm().le(eps) {
            proof {
                assert(is_loop_start(path@, new_pt@, eps, i as int));
                if let Some(k) = loop_start(path@, new_pt@, eps) {
                    let w = choose|w: int| is_loop_start(path@, new_pt@, eps, w);
                    lemma_loop_start_unique(path@, new_pt@, eps, w, i as int);
                }
            }
            return Some(i);
        }
        i += 1;
    }
    None
}

/// Why a path has ended.
#[derive(Debug, Clone, Copy, PartialEq, Eq)]
pub enum Outcome {
    /// The ray met no mirror: it goes on for ever along its last direction.
    Diverged,
    /// The ray has come back on its tracks. `start` is the index, among the
    /// points of the path with the ray's first origin counted as point 0, of
    /// the point from which the ray first went the way it now repeats: what
    /// comes before is gone through once, what comes after again and again.
    LoopDetected { start: usize },
    /// The ray has bounced as many times as it was allowed to.
    Exhausted,
}

/// Where a path stands: what [`RayPath`] holds besides the scene and the
/// threshold, which never change.
pub ghost struct PathState<S, const D: usize> {
    /// The ray, as it left its last bounce.
    pub ray: Ray<S, D>,
    /// The points gone through, from the ray's first origin on, where loops
    /// are looked for.
    pub history: Option<Seq<Vector<S, D>>>,
    /// The number of bounces still allowed, where it is limited.
    pub remaining: Option<usize>,
    /// Why the path has ended, once it has.
    pub outcome: Option<Outcome>,
}

/// `ray` after its next bounce off `mirror`: moved to the closest point of
/// `mirror` that is at least the magnitude of `eps` away, and reflected
/// there, its direction brought back to norm one. `None` if there is no
/// such point.
pub open spec fn bounced<S: Scalar, const D: usize, M: Mirror<S, D> + ?Sized>(
    mirror: &M,
    eps: S,
    ray: Ray<S, D>,
) -> Option<Ray<S, D>> {
    match closest(eps.magnitude(), mirror.tangents(ray)) {
        Some((dist, plane)) => Some(
            Ray {
                origin: vector_of(ray.point_at(dist)),
                dir: vector_of(normalized(plane.reflected(ray.dir@))),
            },
        ),
        None => None,
    }
}

/// One step of a path: the point that it yields, if any, and where the path
/// stands after it.
///
/// A path that has ended stays as it is. One that has no bounce left ends as
/// [`Outcome::Exhausted`]. Otherwise the ray bounces, or the path ends as
/// [`Outcome::Diverged`] if it cannot. The point of the bounce is yielded;
/// where loops are looked for, it is added to the history, and if it closes
/// a loop the path ends as [`Outcome::LoopDetected`].
pub open spec fn stepped<S: Scalar, const D: usize, M: Mirror<S, D> + ?Sized>(
    mirror: &M,
    eps: S,
    state: PathState<S, D>,
) -> (Option<Vector<S, D>>, PathState<S, D>) {
    if state.outcome.is_some() {
        (None, state)
    } else if state.remaining == Some(0usize) {
        (None, PathState { outcome: Some(Outcome::Exhausted), ..state })
    } else {
        match bounced(mirror, eps, state.ray) {
            None => (None, PathState { outcome: Some(Outcome::Diverged), ..state }),
            Some(ray) => (
                Some(ray.origin),
                PathState {
                    ray,
                    history: match state.history {
                        Some(points) => Some(points.push(ray.origin)),
                        None => None,
                    },
                    remaining: match state.remaining {
                        Some(n) => Some((n - 1) as usize),
                        None => None,
                    },
                    outcome: match state.history {
                        Some(points) => match loop_start(points, ray.origin@, eps) {
                            Some(start) => Some(Outcome::LoopDetected { start }),
                            None => None,
                        },
                        None => None,
                    },
                },
            ),
        }
    }
}

/// The points that a path yields in at most `steps` steps, and where it
/// stands after them.
pub open spec fn ran<S: Scalar, const D: usize, M: Mirror<S, D> + ?Sized>(
    mirror: &M,
    eps: S,
    state: PathState<S, D>,
    steps: nat,
) -> (Seq<Vector<S, D>>, PathState<S, D>)
    decreases steps,
{
    if steps == 0 {
        (Seq::empty(), state)
    } else {
        match stepped(mirror, eps, state) {
            (Some(point), next) => {
                let (points, end) = ran(mirror, eps, next, (steps - 1) as nat);
                (seq![point] + points, end)
            },
            (None, end) => (Seq::empty(), end),
        }
    }
}

/// The path of a ray among the mirrors of a scene, one bounce at a time.
///
/// A path goes one way: to go through it again, make a new one.
pub struct RayPath<'a, S, const D: usize, M: ?Sized> {
    /// The ray, as it left its last bounce.
    pub ray: Ray<S, D>,
    /// The least distance that the ray travels between two bounces: see
    /// [`Ray::closest_intersection`]. Also how close two points, or two
    /// directions, have to be to count as the same where loops are looked for.
    pub eps: S,
    /// The scene.
    pub mirror: &'a M,
    /// The points gone through, from the ray's first origin on, where loops
    /// are looked for.
    pub history: Option<Vec<Vector<S, D>>>,
    /// The number of bounces still allowed, where it is limited.
    pub remaining: Option<usize>,
    /// Why the path has ended, once it has.
    pub outcome: Option<Outcome>,
}

impl<'a, S: Scalar, const D: usize, M: Mirror<S, D> + ?Sized> RayPath<'a, S, D, M> {
    /// Where the path stands.
    pub open spec fn state(&self) -> PathState<S, D> {
        PathState {
            ray: self.ray,
            history: match self.history {
                Some(points) => Some(points@),
                None => None,
            },
            remaining: self.remaining,
            outcome: self.outcome,
        }
    }

    /// The path of `ray` in the scene `mirror`: any number of bounces, and
    /// no loop looked for.
    pub fn new(mirror: &'a M, ray: Ray<S, D>, eps: S) -> (r: Self)
        ensures
            r.mirror == mirror,
            r.eps == eps,
            r.state() == (PathState { ray, history: None, remaining: None, outcome: None }),
    {
        RayPath { ray, eps, mirror, history: None, remaining: None, outcome: None }
    }

    /// The same path, ending after at most `max` bounces from now on.
    pub fn with_reflection_cap(self, max: usize) -> (r: Self)
        ensures
            r.mirror == self.mirror,
            r.eps == self.eps,
            r.state() == (PathState { remaining: Some(max), ..self.state() }),
    {
        let mut path = self;
        path.remaining = Some(max);
        path
    }

    /// The same path, ending when the ray comes back on its tracks. The
    /// points it goes through from now on are kept, so the path takes room
    /// in proportion to its length.
    pub fn with_loop_detection(self) -> (r: Self)
        ensures
            r.mirror == self.mirror,
            r.eps == self.eps,
            r.state() == (PathState { history: Some(seq![self.ray.origin]), ..self.state() }),
    {
        let mut path = self;
        let mut points = Vec::new();
        points.push(path.ray.origin);
        assert(points@ =~= seq![path.ray.origin]);
        path.history = Some(points);
        path
    }

    /// The ray, as it left its last bounce.
    pub fn current_ray(&self) -> (r: &Ray<S, D>)
        ensures
            *r == self.ray,
    {
        &self.ray
    }

    /// The number of bounces still allowed, where it is limited.
    pub fn max_reflections(&self) -> (r: Option<usize>)
        ensures
            r == self.remaining,
    {
        self.remaining
    }

    /// Why the path has ended, once it has.
    pub fn outcome(&self) -> (r: Option<Outcome>)
        ensures
            r == self.outcome,
    {
        self.outcome
    }

    /// Takes the path one step further: lets the ray bounce once more and
    /// yields the point where it does, or ends the path and yields nothing.
    pub fn next(&mut self) -> (r: Option<Vector<S, D>>)
        requires
            D >= 1,
        ensures
            final(self).mirror == old(self).mirror,
            final(self).eps == old(self).eps,
            (r, final(self).state()) == stepped(old(self).mirror, old(self).eps, old(self).state()),
    {
        if self.outcome.is_some() {
            return None;
        }
        if let Some(n) = self.remaining {
            if n == 0 {
                self.outcome = Some(Outcome::Exhausted);
                return None;
            }
        }
        match self.ray.closest_intersection(self.mirror, self.eps) {
            None => {
                self.outcome = Some(Outcome::Diverged);
                None
            },
            Some((dist, plane)) => {
                self.ray.advance(dist);
                self.ray.reflect_dir(&plane);
                let point = self.ray.origin;
                proof {
                    lemma_vector_of_view(self.ray.origin);
                    lemma_vector_of_view(self.ray.dir);
                }
                if let Some(n) = self.remaining {
                    self.remaining = Some(n - 1);
                }
                let mut looped: Option<usize> = None;
                match &mut self.history {
                    Some(points) => {
                        looped = loop_index(points.as_slice(), &point, self.eps);
                        points.push(point);
                    },
                    None => {},
                }
                if let Some(start) = looped {
                    self.outcome = Some(Outcome::LoopDetected { start });
                }
                Some(point)
            },
        }
    }

    /// Takes the path to its end, or `max_steps` steps further if it has
    /// not ended by then, and hands out the points that it yields on the way.
    pub fn run(&mut self, max_steps: usize) -> (r: Vec<Vector<S, D>>)
        requires
            D >= 1,
        ensures
            final(self).mirror == old(self).mirror,
            final(self).eps == old(self).eps,
            (r@, final(self).state()) == ran(
                old(self).mirror,
                old(self).eps,
                old(self).state(),
                max_steps as nat,
            ),
    {
        let mut points: Vec<Vector<S, D>> = Vec::new();
        let mut left = max_steps;
        while left > 0
            invariant
                D >= 1,
                left <= max_steps,
                self.mirror == old(self).mirror,
                self.eps == old(self).eps,
                ran(old(self).mirror, old(self).eps, old(self).state(), max_steps as nat) == ({
                    let (more, end) = ran(self.mirror, self.eps, self.state(), left as nat);
                    (points@ + more, end)
                }),
            decreases left,
        {
            match self.next() {
                Some(point) => {
                    proof {
                        let ghost_more = ran(self.mirror, self.eps, self.state(), (left - 1) as nat).0;
                        assert(points@ + (seq![point] + ghost_more) =~= points@.push(point)
                            + ghost_more);
                    }
                    points.push(point);
                    left -= 1;
                },
                None => {
                    assert(points@ + Seq::<Vector<S, D>>::empty() =~= points@);
                    return points;
                },
            }
        }
        assert(points@ + Seq::<Vector<S, D>>::empty() =~= points@);
        points
    }
}

} // verus!
