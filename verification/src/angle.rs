//! Orientation angles in milli-degrees.
//!
//! Orientations are normalized by reducing modulo a full turn (rounding
//! toward zero) and then stepping by half turns until the value lies strictly
//! between minus half a turn and half a turn. The half-turn step is a
//! deliberate quirk of the simulation: an angle just below minus half a turn
//! comes back near zero, not near plus half a turn, and the exact post-bounce
//! angles depend on it.
//!
//! The direction vector of an orientation uses a piecewise-linear wave in
//! place of the circular functions: full deflection at zero, falling linearly
//! to the opposite extreme over half a turn, and back. It keeps the symmetries
//! the physics relies on (both components scaled by `SCALE`).

use vstd::prelude::*;

use crate::consts::{FULL_TURN, HALF_TURN, QUARTER_TURN, SCALE};
use crate::num::{lemma_rem_trunc_bounds, rem_trunc, rem_trunc_i64};

verus! {

/// One half-turn step up, taken while the angle is at or below minus half a turn.
pub open spec fn lift_low(m: int) -> int {
    if m <= -(HALF_TURN as int) {
        m + HALF_TURN
    } else {
        m
    }
}

/// One half-turn step down, taken while the angle is at or above half a turn.
pub open spec fn drop_high(m: int) -> int {
    if m >= HALF_TURN {
        m - HALF_TURN
    } else {
        m
    }
}

/// The canonical form of an orientation: reduce modulo a full turn rounding
/// toward zero, then step by half turns into the open interval
/// (`-HALF_TURN`, `HALF_TURN`).
pub open spec fn norm_spec(o: int) -> int {
    drop_high(lift_low(rem_trunc(o, FULL_TURN as int)))
}

/// A normalized orientation lies strictly between the two half turns.
pub proof fn lemma_norm_range(o: int)
    ensures
        -(HALF_TURN as int) < norm_spec(o) < HALF_TURN,
{
    lemma_rem_trunc_bounds(o, FULL_TURN as int);
}

/// Normalizing leaves an already canonical orientation unchanged.
pub proof fn lemma_norm_fixes_canonical(o: int)
    requires
        -(HALF_TURN as int) < o < HALF_TURN,
    ensures
        norm_spec(o) == o,
{
    lemma_rem_trunc_bounds(o, FULL_TURN as int);
}

/// Normalization is idempotent: a second pass returns the first one's result
/// unchanged.
pub proof fn lemma_norm_idempotent(o: int)
    ensures
        norm_spec(norm_spec(o)) == norm_spec(o),
{
    lemma_norm_range(o);
    lemma_norm_fixes_canonical(norm_spec(o));
}

/// Normalize an orientation into (`-HALF_TURN`, `HALF_TURN`).
pub fn normalize_orientation(o: i64) -> (r: i64)
    requires
        o > i64::MIN,
    ensures
        r == norm_spec(o as int),
        -HALF_TURN < r < HALF_TURN,
{
    proof {
        lemma_rem_trunc_bounds(o as int, FULL_TURN as int);
    }
    let mut r = rem_trunc_i64(o, FULL_TURN);
    while r <= -HALF_TURN
        invariant
            -FULL_TURN < r < FULL_TURN,
            drop_high(lift_low(r as int)) == norm_spec(o as int),
        decreases -r,
    {
        r = r + HALF_TURN;
    }
    while r >= HALF_TURN
        invariant
            -HALF_TURN < r < FULL_TURN,
            drop_high(r as int) == norm_spec(o as int),
        decreases r,
    {
        r = r - HALF_TURN;
    }
    r
}

/// Angle folded into one turn: the Euclidean remainder, in [0, `FULL_TURN`).
pub open spec fn turn_of(a: int) -> int {
    a % (FULL_TURN as int)
}

/// Horizontal deflection of an orientation, scaled by `SCALE`: a triangle
/// wave through (0, `SCALE`), (`HALF_TURN`, `-SCALE`), (`FULL_TURN`, `SCALE`).
pub open spec fn cos_pl(a: int) -> int {
    let m = turn_of(a);
    if m <= HALF_TURN {
        SCALE - m / 90
    } else {
        -(SCALE as int) + (m - HALF_TURN) / 90
    }
}

/// Vertical deflection of an orientation: the horizontal one, a quarter turn
/// behind.
pub open spec fn sin_pl(a: int) -> int {
    cos_pl(a - QUARTER_TURN)
}

/// Both deflections stay within one `SCALE` in magnitude.
pub proof fn lemma_cos_pl_range(a: int)
    ensures
        -(SCALE as int) <= cos_pl(a) <= SCALE,
{
    vstd::arithmetic::div_mod::lemma_mod_bound(a, FULL_TURN as int);
    let m = turn_of(a);
    if m <= HALF_TURN {
        vstd::arithmetic::div_mod::lemma_div_pos_is_pos(m, 90);
        vstd::arithmetic::div_mod::lemma_div_is_ordered(m, HALF_TURN as int, 90);
        vstd::arithmetic::div_mod::lemma_fundamental_div_mod_converse(
            HALF_TURN as int,
            90,
            2 * (SCALE as int),
            0,
        );
    } else {
        vstd::arithmetic::div_mod::lemma_div_pos_is_pos(m - HALF_TURN, 90);
        vstd::arithmetic::div_mod::lemma_div_is_ordered(m - HALF_TURN, HALF_TURN as int, 90);
        vstd::arithmetic::div_mod::lemma_fundamental_div_mod_converse(
            HALF_TURN as int,
            90,
            2 * (SCALE as int),
            0,
        );
    }
}

/// The vertical deflection too.
pub proof fn lemma_sin_pl_range(a: int)
    ensures
        -(SCALE as int) <= sin_pl(a) <= SCALE,
{
    lemma_cos_pl_range(a - QUARTER_TURN);
}

/// Horizontal deflection of an orientation.
pub fn cos_mil(a: i64) -> (r: i64)
    requires
        a > i64::MIN,
    ensures
        r == cos_pl(a as int),
        -SCALE <= r <= SCALE,
{
    proof {
        lemma_rem_trunc_bounds(a as int, FULL_TURN as int);
        lemma_cos_pl_range(a as int);
    }
    let rt = rem_trunc_i64(a, FULL_TURN);
    let m = if rt < 0 {
        rt + FULL_TURN
    } else {
        rt
    };
    proof {
        if a < 0 && rt < 0 {
            vstd::arithmetic::div_mod::lemma_fundamental_div_mod(-(a as int), FULL_TURN as int);
            vstd::arithmetic::div_mod::lemma_fundamental_div_mod_converse(
                a as int,
                FULL_TURN as int,
                -((-(a as int)) / (FULL_TURN as int)) - 1,
                m as int,
            );
        } else if a < 0 {
            vstd::arithmetic::div_mod::lemma_fundamental_div_mod(-(a as int), FULL_TURN as int);
            vstd::arithmetic::div_mod::lemma_fundamental_div_mod_converse(
                a as int,
                FULL_TURN as int,
                -((-(a as int)) / (FULL_TURN as int)),
                m as int,
            );
        } else {
            vstd::arithmetic::div_mod::lemma_small_mod(rt as nat, FULL_TURN as nat);
        }
        assert(m == turn_of(a as int));
    }
    if m <= HALF_TURN {
        SCALE - m / 90
    } else {
        -SCALE + (m - HALF_TURN) / 90
    }
}

/// Vertical deflection of an orientation.
pub fn sin_mil(a: i64) -> (r: i64)
    requires
        a > i64::MIN + QUARTER_TURN,
    ensures
        r == sin_pl(a as int),
        -SCALE <= r <= SCALE,
{
    cos_mil(a - QUARTER_TURN)
}

} // verus!
