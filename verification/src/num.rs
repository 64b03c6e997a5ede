//! Truncating division and remainder on signed fixed-point values.
//!
//! Spec-mode `/` and `%` are Euclidean, while the simulation rounds toward
//! zero the way hardware signed division does; these helpers state and
//! implement the truncating forms once, so every contract can speak of them.

use vstd::prelude::*;

verus! {

/// Quotient of `a / b` rounded toward zero (`b > 0`).
pub open spec fn div_trunc(a: int, b: int) -> int {
    if a >= 0 {
        a / b
    } else {
        -((-a) / b)
    }
}

/// Remainder of `a` modulo `b` with the sign of `a` (`b > 0`).
pub open spec fn rem_trunc(a: int, b: int) -> int {
    if a >= 0 {
        a % b
    } else {
        -((-a) % b)
    }
}

/// The truncating quotient never grows in magnitude.
pub proof fn lemma_div_trunc_bounds(a: int, b: int)
    requires
        b > 0,
    ensures
        a >= 0 ==> 0 <= div_trunc(a, b) <= a,
        a < 0 ==> a <= div_trunc(a, b) <= 0,
{
    if a >= 0 {
        vstd::arithmetic::div_mod::lemma_div_is_ordered_by_denominator(a, 1, b);
        vstd::arithmetic::div_mod::lemma_div_basics(a);
        vstd::arithmetic::div_mod::lemma_div_pos_is_pos(a, b);
    } else {
        vstd::arithmetic::div_mod::lemma_div_is_ordered_by_denominator(-a, 1, b);
        vstd::arithmetic::div_mod::lemma_div_basics(-a);
        vstd::arithmetic::div_mod::lemma_div_pos_is_pos(-a, b);
    }
}

/// The truncating remainder stays strictly below the modulus in magnitude.
pub proof fn lemma_rem_trunc_bounds(a: int, b: int)
    requires
        b > 0,
    ensures
        -b < rem_trunc(a, b) < b,
        a >= 0 ==> rem_trunc(a, b) >= 0,
        a < 0 ==> rem_trunc(a, b) <= 0,
        -b < a < b ==> rem_trunc(a, b) == a,
{
    if a >= 0 {
        vstd::arithmetic::div_mod::lemma_mod_bound(a, b);
        if a < b {
            vstd::arithmetic::div_mod::lemma_small_mod(a as nat, b as nat);
        }
    } else {
        vstd::arithmetic::div_mod::lemma_mod_bound(-a, b);
        if -a < b {
            vstd::arithmetic::div_mod::lemma_small_mod((-a) as nat, b as nat);
        }
    }
}

/// A product of a nonnegative value and a bounded factor, divided truncating
/// by the factor's bound, never exceeds the value itself.
pub proof fn lemma_div_trunc_scaled(v: int, c: int, s: int)
    requires
        s > 0,
        0 <= v,
        -s <= c <= s,
    ensures
        -(v * s) <= v * c <= v * s,
        -v <= div_trunc(v * c, s) <= v,
{
    assert(-(v * s) <= v * c <= v * s) by (nonlinear_arith)
        requires
            0 <= v,
            -s <= c <= s,
    ;
    let p = v * c;
    vstd::arithmetic::div_mod::lemma_div_multiples_vanish(v, s);
    assert(s * v == v * s) by (nonlinear_arith);
    if p >= 0 {
        vstd::arithmetic::div_mod::lemma_div_is_ordered(p, v * s, s);
        vstd::arithmetic::div_mod::lemma_div_pos_is_pos(p, s);
    } else {
        vstd::arithmetic::div_mod::lemma_div_is_ordered(-p, v * s, s);
        vstd::arithmetic::div_mod::lemma_div_pos_is_pos(-p, s);
    }
}

/// Truncating division of `a` by a positive divisor `b`.
pub fn div_trunc_i64(a: i64, b: i64) -> (r: i64)
    requires
        b > 0,
        a > i64::MIN,
    ensures
        r == div_trunc(a as int, b as int),
{
    proof {
        lemma_div_trunc_bounds(a as int, b as int);
    }
    if a >= 0 {
        a / b
    } else {
        -((-a) / b)
    }
}

/// Truncating remainder of `a` by a positive divisor `b`.
pub fn rem_trunc_i64(a: i64, b: i64) -> (r: i64)
    requires
        b > 0,
        a > i64::MIN,
    ensures
        r == rem_trunc(a as int, b as int),
{
    proof {
        lemma_rem_trunc_bounds(a as int, b as int);
    }
    if a >= 0 {
        a % b
    } else {
        -((-a) % b)
    }
}

} // verus!
