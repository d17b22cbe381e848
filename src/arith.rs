use vstd::prelude::*;
use vstd::arithmetic::div_mod::{
    lemma_fundamental_div_mod,
    lemma_fundamental_div_mod_converse,
};

verus! {

/// For a negative dividend `-b`, relates the floor quotient and remainder to
/// those of `b`.
proof fn lemma_div_mod_negated(b: int, d: int)
    requires
        b > 0,
        d > 0,
    ensures
        b % d == 0 ==> (-b) / d == -(b / d) && (-b) % d == 0,
        b % d != 0 ==> (-b) / d == -(b / d) - 1 && (-b) % d == d - b % d,
{
    lemma_fundamental_div_mod(b, d);
    let q = b / d;
    let r = b % d;
    assert(0 <= r < d);
    if r == 0 {
        assert(-b == (-q) * d + 0) by (nonlinear_arith)
            requires
                b == d * q + r,
                r == 0,
        ;
        lemma_fundamental_div_mod_converse(-b, d, -q, 0);
    } else {
        assert(-b == (-q - 1) * d + (d - r)) by (nonlinear_arith)
            requires
                b == d * q + r,
        ;
        lemma_fundamental_div_mod_converse(-b, d, -q - 1, d - r);
    }
}

/// A rounded-down quotient stays within the bounds that the dividend obeys
/// per unit of divisor.
pub proof fn lemma_div_within(total: int, n: int, lo: int, hi: int)
    requires
        n > 0,
        n * lo <= total <= n * hi,
    ensures
        lo <= total / n <= hi,
{
    lemma_fundamental_div_mod(total, n);
    let q = total / n;
    let r = total % n;
    assert(lo <= q <= hi) by (nonlinear_arith)
        requires
            total == n * q + r,
            0 <= r < n,
            n * lo <= total <= n * hi,
    ;
}

/// Division rounded toward negative infinity, which is the `/` of
/// specifications when the divisor is positive.
pub fn div_floor(a: i128, d: i128) -> (q: i128)
    requires
        d > 0,
        a > i128::MIN,
    ensures
        q == a / d,
{
    if a >= 0 {
        a / d
    } else {
        let b = -a;
        proof {
            lemma_div_mod_negated(b as int, d as int);
        }
        let q = b / d;
        if b % d == 0 {
            -q
        } else {
            -q - 1
        }
    }
}

/// The remainder in `[0, d)`, which is the `%` of specifications when the
/// divisor is positive.
pub fn mod_floor(a: i128, d: i128) -> (r: i128)
    requires
        d > 0,
        a > i128::MIN,
    ensures
        r == a % d,
        0 <= r < d,
{
    if a >= 0 {
        a % d
    } else {
        let b = -a;
        proof {
            lemma_div_mod_negated(b as int, d as int);
        }
        let r = b % d;
        if r == 0 {
            0
        } else {
            d - r
        }
    }
}

} // verus!
