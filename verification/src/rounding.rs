//! Division of whole numbers, rounded to the nearest whole number.

use vstd::prelude::*;
use vstd::arithmetic::div_mod::{lemma_div_is_ordered, lemma_fundamental_div_mod,
    lemma_fundamental_div_mod_converse};

verus! {

/// The distance of a number from zero.
pub open spec fn magnitude_of(x: int) -> int {
    if x < 0 {
        -x
    } else {
        x
    }
}

/// `n / d` rounded to the nearest whole number, a half rounded up, for
/// `n >= 0` and `d > 0`.
pub open spec fn nearest(n: int, d: int) -> int {
    (2 * n + d) / (2 * d)
}

/// `a / b` rounded to the nearest whole number, a half rounded away from
/// zero, for `b != 0`.
pub open spec fn round_div(a: int, b: int) -> int {
    let q = nearest(magnitude_of(a), magnitude_of(b));
    if (a < 0) != (b < 0) {
        -q
    } else {
        q
    }
}

/// `nearest(n, d)` is the floor of `n / d`, and one more where the remainder
/// is at least half of `d`.
pub proof fn lemma_nearest_by_remainder(n: int, d: int)
    requires
        0 <= n,
        0 < d,
    ensures
        nearest(n, d) == n / d + if 2 * (n % d) >= d { 1int } else { 0int },
{
    let q = n / d;
    let r = n % d;
    lemma_fundamental_div_mod(n, d);
    assert(d * q == q * d) by (nonlinear_arith);
    if 2 * r >= d {
        assert(2 * n + d == (q + 1) * (2 * d) + (2 * r - d)) by (nonlinear_arith)
            requires
                n == q * d + r,
        ;
        lemma_fundamental_div_mod_converse(2 * n + d, 2 * d, q + 1, 2 * r - d);
    } else {
        assert(2 * n + d == q * (2 * d) + (2 * r + d)) by (nonlinear_arith)
            requires
                n == q * d + r,
        ;
        lemma_fundamental_div_mod_converse(2 * n + d, 2 * d, q, 2 * r + d);
    }
}

/// A rounded quotient is no larger than a bound on the exact one.
pub proof fn lemma_nearest_bounded(n: int, d: int, m: int)
    requires
        0 <= n <= d * m,
        0 < d,
    ensures
        0 <= nearest(n, d) <= m,
{
    assert(2 * (d * m) + d == m * (2 * d) + d) by (nonlinear_arith);
    lemma_fundamental_div_mod_converse(2 * (d * m) + d, 2 * d, m, d);
    lemma_div_is_ordered(2 * n + d, 2 * (d * m) + d, 2 * d);
    lemma_fundamental_div_mod_converse(0, 2 * d, 0, 0);
    lemma_div_is_ordered(0, 2 * n + d, 2 * d);
}

/// A rounded quotient differs from the exact one by at most a half: twice
/// the distance between `round_div(a, b) * b` and `a` is at most the
/// magnitude of `b`.
pub proof fn lemma_round_div_is_nearest(a: int, b: int)
    requires
        b != 0,
    ensures
        2 * magnitude_of(round_div(a, b) * b - a) <= magnitude_of(b),
{
    let n = magnitude_of(a);
    let d = magnitude_of(b);
    let q = nearest(n, d);
    lemma_nearest_by_remainder(n, d);
    lemma_fundamental_div_mod(n, d);
    let f = n / d;
    let r = n % d;
    assert(d * f == f * d) by (nonlinear_arith);
    // q * d - n is d - r where the quotient was rounded up, and -r where not
    assert(q * d - n == if 2 * r >= d { d - r } else { -r }) by (nonlinear_arith)
        requires
            n == f * d + r,
            q == f + if 2 * r >= d { 1int } else { 0int },
    ;
    let signed = round_div(a, b);
    assert(magnitude_of(signed * b - a) == magnitude_of(q * d - n)) by (nonlinear_arith)
        requires
            n == magnitude_of(a),
            d == magnitude_of(b),
            signed == if (a < 0) != (b < 0) { -q } else { q },
            b != 0,
    ;
}

/// The distance of `x` from zero.
pub fn magnitude(x: i128) -> (m: u128)
    ensures
        m == magnitude_of(x as int),
{
    if x == i128::MIN {
        170141183460469231731687303715884105728u128
    } else if x < 0 {
        (-x) as u128
    } else {
        x as u128
    }
}

/// `n / d` rounded to the nearest whole number, a half rounded up.
pub fn nearest_quotient(n: u128, d: u128) -> (q: u128)
    requires
        d > 0,
    ensures
        q == nearest(n as int, d as int),
{
    let floor: u128 = n / d;
    let rest: u128 = n % d;
    proof {
        lemma_nearest_by_remainder(n as int, d as int);
        lemma_fundamental_div_mod(n as int, d as int);
        if rest >= d - rest {
            // rest > 0, so d >= 2 and the floor is at most half of the largest value
            assert(floor < u128::MAX) by (nonlinear_arith)
                requires
                    n == d * floor + rest,
                    rest >= d - rest,
                    0 <= rest < d,
                    n <= u128::MAX,
                    floor >= 0,
            ;
        }
    }
    if rest >= d - rest {
        floor + 1
    } else {
        floor
    }
}

/// `a / b` rounded to the nearest whole number, a half rounded away from
/// zero. The magnitude of the rounded quotient has to fit the result's type;
/// it does whenever `a` is not the most negative value or `b` is neither 1
/// nor -1.
pub fn rounded_quotient(a: i128, b: i128) -> (q: i128)
    requires
        b != 0,
        nearest(magnitude_of(a as int), magnitude_of(b as int)) <= i128::MAX,
    ensures
        q == round_div(a as int, b as int),
{
    let size: u128 = nearest_quotient(magnitude(a), magnitude(b));
    if (a < 0) != (b < 0) {
        -(size as i128)
    } else {
        size as i128
    }
}

} // verus!
