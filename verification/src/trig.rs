//! Periodic oscillator used by the wave solver.
//!
//! Real trigonometric functions have no exact fixed-point form, so the solver
//! uses a triangle wave with period `TURN` and unit slope: it matches the sine
//! at every quarter turn, stays within `[-SCALE, SCALE]`, and changes by at
//! most one unit per angle unit. That last bound is what the continuity law
//! of the wave field rests on.

use vstd::prelude::*;
use vstd::arithmetic::div_mod::{lemma_fundamental_div_mod, lemma_fundamental_div_mod_converse};
use crate::units::{absi, SCALE, TURN};

verus! {

/// One period of the oscillator, defined on `[0, TURN)`.
pub open spec fn sin_wave(a: int) -> int {
    if a <= TURN / 4 {
        a
    } else if a <= 3 * (TURN / 4) {
        TURN / 2 - a
    } else {
        a - TURN
    }
}

/// The oscillator extended periodically to every integer angle.
pub open spec fn sin_per(a: int) -> int {
    sin_wave(a % (TURN as int))
}

/// The same oscillator a quarter turn ahead, playing the role of the cosine.
pub open spec fn cos_per(a: int) -> int {
    sin_per(a + TURN / 4)
}

/// The oscillator value for an angle already reduced to `[0, TURN)`.
pub fn sin_fx(a: i64) -> (r: i64)
    requires
        0 <= a < TURN,
    ensures
        r == sin_per(a as int),
        -SCALE <= r <= SCALE,
{
    proof {
        lemma_mod_small(a as int);
    }
    if a <= TURN / 4 {
        a
    } else if a <= 3 * (TURN / 4) {
        TURN / 2 - a
    } else {
        a - TURN
    }
}

/// The quarter-turn-ahead value for an angle already reduced to `[0, TURN)`.
pub fn cos_fx(a: i64) -> (r: i64)
    requires
        0 <= a < TURN,
    ensures
        r == cos_per(a as int),
        -SCALE <= r <= SCALE,
{
    let b = if a + TURN / 4 >= TURN {
        a + TURN / 4 - TURN
    } else {
        a + TURN / 4
    };
    proof {
        lemma_sin_periodic_shift(b as int, (a + TURN / 4) as int);
    }
    sin_fx(b)
}

proof fn lemma_mod_small(a: int)
    requires
        0 <= a < TURN,
    ensures
        a % (TURN as int) == a,
{
    lemma_fundamental_div_mod_converse(a, TURN as int, 0, a);
}

/// Two angles a whole number of turns apart have the same oscillator value.
proof fn lemma_sin_periodic_shift(a: int, b: int)
    requires
        b == a + TURN || b == a,
    ensures
        sin_per(a) == sin_per(b),
{
    if b == a + TURN {
        lemma_fundamental_div_mod(a, TURN as int);
        let q = a / (TURN as int);
        let r = a % (TURN as int);
        assert(b == (TURN as int) * (q + 1) + r) by (nonlinear_arith)
            requires
                a == (TURN as int) * q + r,
                b == a + TURN,
        ;
        lemma_fundamental_div_mod_converse(b, TURN as int, q + 1, r);
    }
}

/// Shifting by any whole number of turns leaves the oscillator unchanged.
pub proof fn lemma_sin_periodic_multiple(a: int, k: int)
    ensures
        sin_per(a + k * TURN) == sin_per(a),
{
    lemma_fundamental_div_mod(a, TURN as int);
    let q = a / (TURN as int);
    let r = a % (TURN as int);
    assert(a + k * TURN == (q + k) * (TURN as int) + r) by (nonlinear_arith)
        requires
            a == (TURN as int) * q + r,
    ;
    lemma_fundamental_div_mod_converse(a + k * TURN, TURN as int, q + k, r);
}

/// The oscillator never leaves `[-SCALE, SCALE]`.
pub proof fn lemma_sin_bounds(a: int)
    ensures
        -SCALE <= sin_per(a) <= SCALE,
{
    lemma_fundamental_div_mod(a, TURN as int);
}

/// Moving one angle unit changes the oscillator by at most one.
proof fn lemma_sin_step(a: int)
    ensures
        absi(sin_per(a + 1) - sin_per(a)) <= 1,
{
    lemma_fundamental_div_mod(a, TURN as int);
    let q = a / (TURN as int);
    let r = a % (TURN as int);
    if r == TURN - 1 {
        lemma_fundamental_div_mod_converse(a + 1, TURN as int, q + 1, 0);
        assert(a + 1 == (TURN as int) * (q + 1)) by (nonlinear_arith)
            requires
                a == (TURN as int) * q + r,
                r == TURN - 1,
        ;
    } else {
        lemma_fundamental_div_mod_converse(a + 1, TURN as int, q, r + 1);
        assert(a + 1 == (TURN as int) * q + (r + 1)) by (nonlinear_arith)
            requires
                a == (TURN as int) * q + r,
        ;
    }
}

/// The oscillator is 1-Lipschitz: values differ by at most the angle distance.
pub proof fn lemma_sin_lipschitz(a: int, b: int)
    ensures
        absi(sin_per(a) - sin_per(b)) <= absi(a - b),
    decreases absi(a - b),
{
    if a < b {
        lemma_sin_lipschitz(a, b - 1);
        lemma_sin_step(b - 1);
    } else if a > b {
        lemma_sin_lipschitz(a - 1, b);
        lemma_sin_step(a - 1);
    }
}

} // verus!
