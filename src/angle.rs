//! Headings as whole numbers of angle units (ten-thousandths of a degree),
//! and their reduction to the canonical half-open turn `(-HALF_TURN, HALF_TURN]`.
use vstd::prelude::*;
use vstd::arithmetic::div_mod::{
    lemma_fundamental_div_mod,
    lemma_fundamental_div_mod_converse,
    lemma_small_mod,
};
use crate::arith::mod_floor;

verus! {

/// Angle units in half a turn (pi radians): 180 degrees of 10_000 units each.
pub const HALF_TURN: i64 = 1_800_000;

/// Angle units in a full turn (two pi radians).
pub const FULL_TURN: i64 = 3_600_000;

/// An angle lies in the canonical range `(-HALF_TURN, HALF_TURN]`.
pub open spec fn is_canonical(a: int) -> bool {
    -HALF_TURN < a <= HALF_TURN
}

/// The canonical angle that differs from `a` by a whole number of turns.
pub open spec fn normalized(a: int) -> int {
    HALF_TURN - (HALF_TURN - a) % (FULL_TURN as int)
}

/// `normalized(a)` is canonical, equals `a` up to whole turns, and is left
/// unchanged by normalizing it again.
pub proof fn lemma_normalized(a: int)
    ensures
        is_canonical(normalized(a)),
        (normalized(a) - a) % (FULL_TURN as int) == 0,
        normalized(normalized(a)) == normalized(a),
{
    let f = FULL_TURN as int;
    let t = HALF_TURN - a;
    lemma_fundamental_div_mod(t, f);
    let q = t / f;
    let m = t % f;
    assert(0 <= m < f);
    let n = normalized(a);
    assert(n - a == q * f + 0) by (nonlinear_arith)
        requires
            t == f * q + m,
            n == HALF_TURN - m,
            t == HALF_TURN - a,
    ;
    lemma_fundamental_div_mod_converse(n - a, f, q, 0);
    lemma_small_mod((HALF_TURN - n) as nat, f as nat);
}

fn normalize_wide(a: i128) -> (r: i64)
    requires
        i64::MIN as int - i64::MAX as int <= a <= i64::MAX as int - i64::MIN as int,
    ensures
        r == normalized(a as int),
{
    let m = mod_floor(HALF_TURN as i128 - a, FULL_TURN as i128);
    (HALF_TURN as i128 - m) as i64
}

/// Reduces `angle` to the canonical range by whole turns.
pub fn normalize_angle(angle: i64) -> (r: i64)
    ensures
        r == normalized(angle as int),
        is_canonical(r as int),
{
    proof {
        lemma_normalized(angle as int);
    }
    normalize_wide(angle as i128)
}

/// The signed turn from heading `from` to heading `to`, as a canonical angle.
pub fn angle_diff(to: i64, from: i64) -> (r: i64)
    ensures
        r == normalized(to - from),
        is_canonical(r as int),
{
    proof {
        lemma_normalized(to - from);
    }
    normalize_wide(to as i128 - from as i128)
}

} // verus!
