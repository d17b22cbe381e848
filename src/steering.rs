//! The steering rule: the new heading of a bird from the direction of its
//! local centre and the mean heading of its neighbours.
use vstd::prelude::*;
use crate::angle::{HALF_TURN, is_canonical, normalized, angle_diff, lemma_normalized};
use crate::arith::{div_floor, lemma_div_within};

verus! {

/// Steering weights are fractions over this denominator: cohesion counts
/// `1 / STEER_DEN` (a turn rate of 0.05).
pub const STEER_DEN: i64 = 20;

/// Alignment counts `ALIGNMENT_WEIGHT / STEER_DEN`, that is one half.
pub const ALIGNMENT_WEIGHT: i64 = 10;

/// No steered heading is further than this from zero: the largest cohesion
/// term (half a turn times the turn rate) plus the largest alignment term
/// (half a turn times one half): 90_000 + 900_000 angle units.
pub const STEER_BOUND: i64 = 990_000;

/// Which steering terms make up the new heading.
#[derive(Clone, Copy, Debug, PartialEq, Eq, Structural)]
pub enum Policy {
    /// Cohesion and alignment.
    Full,
    /// Cohesion alone.
    CohesionOnly,
}

/// The heading that replaces `dir` (it is not added to it): the turn towards
/// `bearing`, the direction of the local centre, scaled by the turn rate, and
/// under `Policy::Full` also half the turn towards `mean_heading`; rounded down.
pub open spec fn steered(policy: Policy, dir: int, bearing: int, mean_heading: int) -> int {
    let cohesion = normalized(bearing - dir);
    let alignment = normalized(mean_heading - dir);
    match policy {
        Policy::Full => (cohesion + ALIGNMENT_WEIGHT * alignment) / (STEER_DEN as int),
        Policy::CohesionOnly => cohesion / (STEER_DEN as int),
    }
}

/// Every steered heading lies within `STEER_BOUND` of zero, and so is canonical.
pub proof fn lemma_steered_bounded(policy: Policy, dir: int, bearing: int, mean_heading: int)
    ensures
        -STEER_BOUND <= steered(policy, dir, bearing, mean_heading) <= STEER_BOUND,
        is_canonical(steered(policy, dir, bearing, mean_heading)),
{
    lemma_normalized(bearing - dir);
    lemma_normalized(mean_heading - dir);
    let cohesion = normalized(bearing - dir);
    let alignment = normalized(mean_heading - dir);
    match policy {
        Policy::Full => {
            lemma_div_within(
                cohesion + ALIGNMENT_WEIGHT * alignment,
                STEER_DEN as int,
                -STEER_BOUND as int,
                STEER_BOUND as int,
            );
        },
        Policy::CohesionOnly => {
            lemma_div_within(cohesion, STEER_DEN as int, -STEER_BOUND as int, STEER_BOUND as int);
        },
    }
}

/// The new heading of a bird heading `dir`, whose local centre lies in
/// direction `bearing` and whose neighbours head `mean_heading` on average.
pub fn steer(policy: Policy, dir: i64, bearing: i64, mean_heading: i64) -> (r: i64)
    ensures
        r == steered(policy, dir as int, bearing as int, mean_heading as int),
        -STEER_BOUND <= r <= STEER_BOUND,
        is_canonical(r as int),
{
    proof {
        lemma_steered_bounded(policy, dir as int, bearing as int, mean_heading as int);
    }
    let cohesion = angle_diff(bearing, dir);
    match policy {
        Policy::Full => {
            let alignment = angle_diff(mean_heading, dir);
            div_floor(
                cohesion as i128 + ALIGNMENT_WEIGHT as i128 * alignment as i128,
                STEER_DEN as i128,
            ) as i64
        },
        Policy::CohesionOnly => div_floor(cohesion as i128, STEER_DEN as i128) as i64,
    }
}

} // verus!
