//! One tick of the simulation: every bird's next state is computed from the
//! same snapshot of the flock, and the new flock replaces the old one whole.
use vstd::prelude::*;
use crate::flock::{
    Bird, avg_heading, center_of_mass, lemma_mean_of_few, lemma_neighbors_below, mean,
    neighbors, neighbors_of, sum_dir, sum_x, sum_y,
};
use crate::geometry::{Vector, can_translate};
use crate::angle::is_canonical;
use crate::steering::{Policy, STEER_BOUND, lemma_steered_bounded, steer, steered};

verus! {

/// The two profiles of the update rule.
#[derive(Clone, Copy, Debug, PartialEq, Eq, Structural)]
pub struct Config {
    /// Which steering terms make up the new heading.
    pub policy: Policy,
    /// Whether a bird that leaves the screen re-enters at the opposite edge;
    /// without it birds may leave for good.
    pub wrap: bool,
}

/// A coordinate below zero goes to the far edge `extent`, one beyond
/// `extent` goes to zero, any other stays.
pub open spec fn wrapped(v: int, extent: int) -> int {
    if v < 0 {
        extent
    } else if v > extent {
        0
    } else {
        v
    }
}

/// The coordinate after a move to `v`, wrapped when the profile asks for it.
pub open spec fn next_coord(v: int, extent: int, wrap: bool) -> int {
    if wrap {
        wrapped(v, extent)
    } else {
        v
    }
}

/// The heading that bird `i` takes, given the direction `bearing` of its
/// local centre.
pub open spec fn next_heading(birds: Seq<Bird>, i: int, bearing: int, policy: Policy) -> int {
    let nb = neighbors_of(birds, birds[i]);
    steered(policy, birds[i].dir as int, bearing, mean(sum_dir(birds, nb), nb.len() as int))
}

/// Wraps one coordinate into `[0, extent]` as `wrapped` says.
pub fn wrap_coord(v: i64, extent: i64) -> (r: i64)
    ensures
        r == wrapped(v as int, extent as int),
{
    if v < 0 {
        extent
    } else if v > extent {
        0
    } else {
        v
    }
}

/// For each bird, the centroid of its neighbours (the origin for a bird
/// without any); the host turns the way from the bird to it into a bearing.
pub fn flock_centers(birds: &Vec<Bird>) -> (r: Vec<Vector>)
    ensures
        r.len() == birds.len(),
        forall|i: int|
            0 <= i < birds.len() ==> {
                let nb = #[trigger] neighbors_of(birds@, birds@[i]);
                &&& r@[i].x == mean(sum_x(birds@, nb), nb.len() as int)
                &&& r@[i].y == mean(sum_y(birds@, nb), nb.len() as int)
            },
{
    let mut r: Vec<Vector> = Vec::new();
    let mut i: usize = 0;
    while i < birds.len()
        invariant
            i <= birds.len(),
            r.len() == i,
            forall|j: int|
                0 <= j < i ==> {
                    let nb = #[trigger] neighbors_of(birds@, birds@[j]);
                    &&& r@[j].x == mean(sum_x(birds@, nb), nb.len() as int)
                    &&& r@[j].y == mean(sum_y(birds@, nb), nb.len() as int)
                },
        decreases birds.len() - i,
    {
        let nb = neighbors(birds, birds[i]);
        proof {
            lemma_neighbors_below(birds@, birds@[i as int], birds.len() as int);
        }
        let c = center_of_mass(birds, &nb);
        r.push(c);
        i = i + 1;
    }
    r
}

/// Advances the flock by one tick. Bird `i` moves by `steps[i]`, its
/// displacement at constant speed along its old heading, and takes the
/// steered heading for `bearings[i]`, the direction from it to its local
/// centre; all from the old flock, which the result replaces.
pub fn tick(
    birds: &Vec<Bird>,
    steps: &Vec<Vector>,
    bearings: &Vec<i64>,
    config: Config,
    screen: Vector,
) -> (r: Vec<Bird>)
    requires
        steps.len() == birds.len(),
        bearings.len() == birds.len(),
        forall|i: int| 0 <= i < birds.len() ==> can_translate(#[trigger] birds@[i].pos, steps@[i]),
    ensures
        r.len() == birds.len(),
        forall|i: int|
            0 <= i < birds.len() ==> {
                let (b, s) = (#[trigger] birds@[i], steps@[i]);
                &&& r@[i].pos.x == next_coord(b.pos.x + s.x, screen.x as int, config.wrap)
                &&& r@[i].pos.y == next_coord(b.pos.y + s.y, screen.y as int, config.wrap)
                &&& r@[i].dir == next_heading(birds@, i, bearings@[i] as int, config.policy)
            },
{
    let mut r: Vec<Bird> = Vec::new();
    let mut i: usize = 0;
    while i < birds.len()
        invariant
            i <= birds.len(),
            steps.len() == birds.len(),
            bearings.len() == birds.len(),
            forall|j: int| 0 <= j < birds.len() ==> can_translate(#[trigger] birds@[j].pos, steps@[j]),
            r.len() == i,
            forall|j: int|
                0 <= j < i ==> {
                    let (b, s) = (#[trigger] birds@[j], steps@[j]);
                    &&& r@[j].pos.x == next_coord(b.pos.x + s.x, screen.x as int, config.wrap)
                    &&& r@[j].pos.y == next_coord(b.pos.y + s.y, screen.y as int, config.wrap)
                    &&& r@[j].dir == next_heading(birds@, j, bearings@[j] as int, config.policy)
                },
        decreases birds.len() - i,
    {
        let b = birds[i];
        let moved = b.pos.translate(steps[i]);
        let pos = if config.wrap {
            Vector { x: wrap_coord(moved.x, screen.x), y: wrap_coord(moved.y, screen.y) }
        } else {
            moved
        };
        let nb = neighbors(birds, b);
        proof {
            lemma_neighbors_below(birds@, b, birds.len() as int);
        }
        let mean_heading = avg_heading(birds, &nb);
        let dir = steer(config.policy, b.dir, bearings[i], mean_heading);
        r.push(Bird { pos, dir });
        i = i + 1;
    }
    r
}

/// With wrapping, a bird that moves past the far edge of an axis lands at
/// exactly zero on it, not at the edge.
pub proof fn lemma_wrap_past_edge(extent: int, overshoot: int)
    requires
        extent >= 0,
        overshoot > 0,
    ensures
        next_coord(extent + overshoot, extent, true) == 0,
{
}

/// The heading a bird takes in a tick lies within `STEER_BOUND` of zero
/// and is canonical, whatever the flock and the bearing.
pub proof fn lemma_next_heading_bounded(birds: Seq<Bird>, i: int, bearing: int, policy: Policy)
    requires
        0 <= i < birds.len(),
    ensures
        -STEER_BOUND <= next_heading(birds, i, bearing, policy) <= STEER_BOUND,
        is_canonical(next_heading(birds, i, bearing, policy)),
{
    let nb = neighbors_of(birds, birds[i]);
    lemma_steered_bounded(policy, birds[i].dir as int, bearing, mean(sum_dir(birds, nb), nb.len() as int));
}

/// In a tick, a bird without neighbours steers as if its neighbours headed
/// zero on average (its centre, from `flock_centers`, being the origin); a bird
/// with one neighbour aligns with that neighbour's heading.
pub proof fn lemma_next_heading_few_neighbors(
    birds: Seq<Bird>,
    i: int,
    bearing: int,
    policy: Policy,
)
    requires
        0 <= i < birds.len(),
        birds.len() <= usize::MAX,
    ensures
        neighbors_of(birds, birds[i]).len() == 0 ==> next_heading(birds, i, bearing, policy)
            == steered(policy, birds[i].dir as int, bearing, 0),
        neighbors_of(birds, birds[i]).len() == 1 ==> next_heading(birds, i, bearing, policy)
            == steered(
            policy,
            birds[i].dir as int,
            bearing,
            birds[neighbors_of(birds, birds[i])[0] as int].dir as int,
        ),
{
    let nb = neighbors_of(birds, birds[i]);
    lemma_neighbors_below(birds, birds[i], birds.len() as int);
    if nb.len() <= 1 {
        lemma_mean_of_few(birds, nb);
    }
}

} // verus!
