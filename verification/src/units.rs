//! Fixed-point units and scalar helpers.
//!
//! One world metre is `1000` length units (millimetres), one second is
//! `1_000_000` time units (microseconds), and dimensionless factors such as
//! throttle or drag are scaled by `SCALE` (`1000` = 1.0). Angles use a cycle
//! of `TURN` units, so a quarter turn is `TURN / 4`.

use vstd::prelude::*;
use vstd::arithmetic::div_mod::{
    lemma_div_is_ordered, lemma_div_multiples_vanish, lemma_fundamental_div_mod,
    lemma_fundamental_div_mod_converse, lemma_multiply_divide_lt,
};

verus! {

/// Fixed-point unit: this many scaled units equal 1.0.
pub const SCALE: i64 = 1000;

/// Angle units in one full turn (one wave cycle).
pub const TURN: i64 = 4000;

/// Time units (microseconds) in one second.
pub const SECOND: i64 = 1000000;

/// Sea level height, length units. The water surface oscillates around this.
pub const SEA_LEVEL: i64 = -2000;

/// Seafloor height, length units. Nothing sinks below this.
pub const MAP_FLOOR_Y: i64 = -80000;

/// World positions are kept within this many length units of the origin.
pub const POS_LIMIT: i64 = 10000000;

/// Velocities are kept within this many length units per second.
pub const VEL_LIMIT: i64 = 1000000;

/// A single tick never spans more than this many time units (one second).
pub const DT_LIMIT: i64 = 1000000;

/// The simulation clock stays below this many time units.
pub const TIME_LIMIT: i64 = 1000000000000;

/// Absolute value of a mathematical integer.
pub open spec fn absi(x: int) -> int {
    if x < 0 {
        -x
    } else {
        x
    }
}

/// Clamp of a mathematical integer to `[lo, hi]`.
pub open spec fn clampi(x: int, lo: int, hi: int) -> int {
    if x < lo {
        lo
    } else if x > hi {
        hi
    } else {
        x
    }
}

/// Floor division by a positive divisor (agrees with division on `int`).
pub open spec fn div_fl_spec(a: int, d: int) -> int {
    a / d
}

/// Remainder matching `div_fl_spec` (in `[0, d)` for a positive divisor).
pub open spec fn mod_fl_spec(a: int, d: int) -> int {
    a % d
}

/// Floor division of an `i64` by a positive divisor.
pub fn div_fl(a: i64, d: i64) -> (q: i64)
    requires
        1 <= d,
        -0x7fffffffffffffff <= a,
    ensures
        q == a as int / d as int,
        absi(q as int) <= absi(a as int),
{
    if a >= 0 {
        a / d
    } else {
        let na = -a;
        let t = (na - 1) / d;
        proof {
            lemma_fundamental_div_mod((na - 1) as int, d as int);
            let r = (na - 1) as int % d as int;
            assert((na - 1) as int == d as int * t + r);
            assert(a as int == -(d as int * t + r + 1));
            assert(-(d as int * t + r + 1) == d as int * (-t - 1) + (d - 1 - r))
                by (nonlinear_arith);
            lemma_fundamental_div_mod_converse(a as int, d as int, -t - 1, d - 1 - r);
        }
        -t - 1
    }
}

/// Euclidean remainder of an `i64` by a positive divisor; result in `[0, d)`.
pub fn mod_fl(a: i64, d: i64) -> (r: i64)
    requires
        1 <= d <= 0x3fffffffffffffff,
        absi(a as int) <= 0x3fffffffffffffff,
    ensures
        r == a as int % d as int,
        0 <= r < d,
{
    let q = div_fl(a, d);
    proof {
        lemma_fundamental_div_mod(a as int, d as int);
        assert(d as int * q == a - a as int % d as int);
    }
    a - d * q
}

/// Floor division overshoots the magnitude quotient by at most one.
pub proof fn lemma_div_abs_plus(a: int, d: int)
    requires
        1 <= d,
    ensures
        absi(a / d) <= absi(a) / d + 1,
{
    lemma_fundamental_div_mod(a, d);
    let q = a / d;
    let r = a % d;
    if a >= 0 {
        lemma_div_fl_abs(a, d);
    } else {
        if r == 0 {
            assert(-a == (-q) * d + 0) by (nonlinear_arith)
                requires
                    a == d * q + r,
                    r == 0,
            ;
            lemma_fundamental_div_mod_converse(-a, d, -q, 0);
        } else {
            assert(-a == (-q - 1) * d + (d - r)) by (nonlinear_arith)
                requires
                    a == d * q + r,
            ;
            lemma_fundamental_div_mod_converse(-a, d, -q - 1, d - r);
        }
    }
}

/// Quotients by a positive divisor differ by at most the quotient of the
/// difference, plus one unit of rounding.
pub proof fn lemma_div_sub(x: int, y: int, d: int)
    requires
        1 <= d,
    ensures
        absi(x / d - y / d) <= absi(x - y) / d + 1,
{
    lemma_fundamental_div_mod(x, d);
    lemma_fundamental_div_mod(y, d);
    let qx = x / d;
    let qy = y / d;
    let rx = x % d;
    let ry = y % d;
    if rx >= ry {
        assert(x - y == (qx - qy) * d + (rx - ry)) by (nonlinear_arith)
            requires
                x == d * qx + rx,
                y == d * qy + ry,
        ;
        lemma_fundamental_div_mod_converse(x - y, d, qx - qy, rx - ry);
        lemma_div_abs_plus(x - y, d);
    } else {
        assert(x - y == (qx - qy - 1) * d + (rx - ry + d)) by (nonlinear_arith)
            requires
                x == d * qx + rx,
                y == d * qy + ry,
        ;
        lemma_fundamental_div_mod_converse(x - y, d, qx - qy - 1, rx - ry + d);
        if x - y >= 0 {
            lemma_div_fl_abs(x - y, d);
        } else {
            lemma_div_abs_plus(x - y, d);
            lemma_fundamental_div_mod(x - y, d);
            assert((x - y) / d <= -1) by {
                if (x - y) / d >= 0 {
                    assert(x - y >= 0) by (nonlinear_arith)
                        requires
                            x - y == d * ((x - y) / d) + (x - y) % d,
                            (x - y) / d >= 0,
                            (x - y) % d >= 0,
                            d >= 1,
                    ;
                }
            };
        }
    }
}

/// Division rounding toward zero, for a positive divisor.
pub open spec fn div_tz_spec(a: int, d: int) -> int {
    if a >= 0 {
        a / d
    } else {
        -((-a) / d)
    }
}

/// Divides, rounding toward zero, so the result never grows in magnitude.
pub fn div_tz(a: i64, d: i64) -> (r: i64)
    requires
        1 <= d,
        -0x7fffffffffffffff <= a,
    ensures
        r == div_tz_spec(a as int, d as int),
        absi(r as int) <= absi(a as int),
{
    proof {
        lemma_div_fl_abs(absi(a as int), d as int);
    }
    if a >= 0 {
        a / d
    } else {
        -((-a) / d)
    }
}

/// Rounding toward zero keeps the sign and never grows the magnitude.
pub proof fn lemma_div_tz_props(a: int, d: int)
    requires
        1 <= d,
    ensures
        absi(div_tz_spec(a, d)) == absi(a) / d,
        absi(div_tz_spec(a, d)) <= absi(a),
        a >= 0 ==> div_tz_spec(a, d) >= 0,
        a <= 0 ==> div_tz_spec(a, d) <= 0,
{
    lemma_div_fl_abs(absi(a), d);
}

/// A value scaled by a fixed-point factor, rounding toward zero.
pub open spec fn scale_tz_spec(v: int, f: int) -> int {
    div_tz_spec(v * f, SCALE as int)
}

/// Scales by a fixed-point factor in `[0, SCALE]`, rounding toward zero. A
/// factor below `SCALE` strictly shrinks any nonzero value.
pub fn scale_tz(v: i64, f: i64) -> (r: i64)
    requires
        0 <= f <= SCALE,
        absi(v as int) <= 2000000000000,
    ensures
        r == scale_tz_spec(v as int, f as int),
        absi(r as int) <= absi(v as int),
        v >= 0 ==> 0 <= r <= v,
        v <= 0 ==> v <= r <= 0,
        f < SCALE && v != 0 ==> absi(r as int) < absi(v as int),
{
    proof {
        lemma_mul_bound(v as int, f as int, 2000000000000, 1000);
        lemma_scale_tz_props(v as int, f as int);
    }
    div_tz(v * f, SCALE)
}

/// Fixed-point scaling by a factor of at most one shrinks magnitudes; by a
/// factor strictly below one, it strictly shrinks nonzero values.
pub proof fn lemma_scale_tz_props(v: int, f: int)
    requires
        0 <= f <= SCALE,
    ensures
        absi(scale_tz_spec(v, f)) <= absi(v),
        v >= 0 ==> 0 <= scale_tz_spec(v, f) <= v,
        v <= 0 ==> v <= scale_tz_spec(v, f) <= 0,
        f < SCALE && v != 0 ==> absi(scale_tz_spec(v, f)) < absi(v),
{
    let s = SCALE as int;
    lemma_div_tz_props(v * f, s);
    let m = absi(v);
    assert(absi(v * f) == m * f && 0 <= m * f <= m * s) by (nonlinear_arith)
        requires
            0 <= f <= s,
            m == absi(v),
            1 <= s,
    ;
    lemma_div_is_ordered(m * f, m * s, s);
    lemma_div_multiples_vanish(m, s);
    assert(m * s == s * m) by (nonlinear_arith);
    assert(v >= 0 ==> v * f >= 0) by (nonlinear_arith)
        requires
            0 <= f,
    ;
    assert(v <= 0 ==> v * f <= 0) by (nonlinear_arith)
        requires
            0 <= f,
    ;
    if f < s && v != 0 {
        assert(m * f < s * m) by (nonlinear_arith)
            requires
                0 <= f < s,
                m >= 1,
        ;
        lemma_multiply_divide_lt(m * f, s, m);
    }
}

/// Division rounding away from zero, for a positive divisor.
pub open spec fn div_away_spec(a: int, d: int) -> int {
    if a >= 0 {
        (a + d - 1) / d
    } else {
        -((-a + d - 1) / d)
    }
}

/// Divides, rounding away from zero, so a result scaled back up never falls
/// short of the dividend in magnitude.
pub fn div_away(a: i64, d: i64) -> (r: i64)
    requires
        1 <= d <= 0x3fffffffffffffff,
        absi(a as int) <= 0x3fffffffffffffff,
    ensures
        r == div_away_spec(a as int, d as int),
        absi(r as int) <= absi(a as int),
{
    proof {
        lemma_div_away_props(a as int, d as int);
        lemma_div_fl_abs((absi(a as int) + d - 1) as int, d as int);
    }
    if a >= 0 {
        (a + (d - 1)) / d
    } else {
        -((-a + (d - 1)) / d)
    }
}

/// Rounding away from zero keeps the sign and dominates the exact quotient.
pub proof fn lemma_div_away_props(a: int, d: int)
    requires
        1 <= d,
    ensures
        a >= 0 ==> div_away_spec(a, d) >= 0 && div_away_spec(a, d) * d >= a,
        a <= 0 ==> div_away_spec(a, d) <= 0 && div_away_spec(a, d) * d <= a,
        absi(div_away_spec(a, d)) <= absi(a),
{
    let m = absi(a);
    let q = (m + d - 1) / d;
    lemma_fundamental_div_mod(m + d - 1, d);
    lemma_div_fl_abs(m + d - 1, d);
    assert(q * d >= m && 0 <= q <= m) by (nonlinear_arith)
        requires
            1 <= d,
            0 <= m,
            m + d - 1 == d * q + ((m + d - 1) % d),
            0 <= (m + d - 1) % d < d,
    ;
    if a < 0 {
        assert(div_away_spec(a, d) == -q);
        assert((-q) * d == -(q * d)) by (nonlinear_arith);
    }
}

/// Clamp an `i64` to `[lo, hi]`.
pub fn clamp64(x: i64, lo: i64, hi: i64) -> (r: i64)
    requires
        lo <= hi,
    ensures
        r == clampi(x as int, lo as int, hi as int),
{
    if x < lo {
        lo
    } else if x > hi {
        hi
    } else {
        x
    }
}

/// Absolute value of an `i64`.
pub fn abs64(x: i64) -> (r: i64)
    requires
        -0x7fffffffffffffff <= x,
    ensures
        r == absi(x as int),
{
    if x < 0 {
        -x
    } else {
        x
    }
}

/// A product of values bounded in magnitude is bounded by the product of the bounds.
pub proof fn lemma_mul_bound(a: int, b: int, aa: int, bb: int)
    requires
        absi(a) <= aa,
        absi(b) <= bb,
    ensures
        absi(a * b) <= aa * bb,
        -(aa * bb) <= a * b <= aa * bb,
{
    assert(absi(a * b) <= aa * bb) by (nonlinear_arith)
        requires
            absi(a) <= aa,
            absi(b) <= bb,
    ;
}

/// Floor division by a positive divisor shrinks magnitudes.
pub proof fn lemma_div_fl_abs(a: int, d: int)
    requires
        1 <= d,
    ensures
        absi(a / d) <= absi(a),
        a >= 0 ==> 0 <= a / d <= a,
        a < 0 ==> a <= a / d <= 0,
{
    lemma_fundamental_div_mod(a, d);
    assert(a == d * (a / d) + a % d);
    if a >= 0 {
        assert(0 <= a / d <= a) by (nonlinear_arith)
            requires
                1 <= d,
                a >= 0,
                a == d * (a / d) + a % d,
                0 <= a % d < d,
        ;
    } else {
        assert(a <= a / d <= 0) by (nonlinear_arith)
            requires
                1 <= d,
                a < 0,
                a == d * (a / d) + a % d,
                0 <= a % d < d,
        ;
    }
}

} // verus!
