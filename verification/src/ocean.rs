//! Gerstner-style ocean wave solver.
//!
//! The water surface is a sum of wave layers. Each layer contributes
//! `amplitude * steepness * sin_per(angle)` (scaled), where the angle advances
//! by one full `TURN` over each wavelength travelled along the layer's
//! direction, and the layer pattern itself travels at the layer's speed.

use vstd::prelude::*;
use vstd::arithmetic::div_mod::{
    lemma_div_is_ordered, lemma_div_multiples_vanish, lemma_div_pos_is_pos,
    lemma_fundamental_div_mod, lemma_fundamental_div_mod_converse, lemma_multiply_divide_lt,
};
use crate::geom::{isqrt64_ceil, sqrt_fl_of, Vec3Fx};
use crate::trig::{sin_fx, sin_per};
use crate::units::{
    absi, clampi, div_fl, lemma_div_fl_abs, lemma_div_sub, lemma_mul_bound, mod_fl, DT_LIMIT,
    POS_LIMIT, SCALE, SEA_LEVEL, SECOND, TIME_LIMIT, TURN,
};

verus! {

/// Longest accepted wavelength, length units.
pub const WAVELENGTH_LIMIT: i64 = 1000000000;

/// Largest accepted wave amplitude, length units.
pub const AMP_LIMIT: i64 = 100000;

/// Largest accepted wave propagation speed, length units per second.
pub const WAVE_SPEED_LIMIT: i64 = 100000;

/// Largest accepted raw direction component handed to the constructor.
pub const DIR_RAW_LIMIT: i64 = 1000000;

/// Most wave layers a field may carry.
pub const MAX_WAVES: usize = 64;

/// Wave parameters for one Gerstner layer. Direction is normalized at
/// construction; all fields are fixed-point.
#[derive(Clone, Copy, PartialEq, Eq, Structural, Debug)]
pub struct GerstnerWave {
    pub wavelength: i64,
    pub amplitude: i64,
    pub speed: i64,
    pub dir_x: i64,
    pub dir_z: i64,
    pub steepness: i64,
}

impl GerstnerWave {
    /// Well-formed layer: positive wavelength, bounded parameters, and a
    /// direction vector of at most unit length that is not zero.
    pub open spec fn wf(self) -> bool {
        &&& 1 <= self.wavelength <= WAVELENGTH_LIMIT
        &&& 0 <= self.amplitude <= AMP_LIMIT
        &&& absi(self.speed as int) <= WAVE_SPEED_LIMIT
        &&& 0 <= self.steepness <= SCALE
        &&& absi(self.dir_x as int) <= SCALE
        &&& absi(self.dir_z as int) <= SCALE
        &&& self.dir_x * self.dir_x + self.dir_z * self.dir_z <= SCALE * SCALE
        &&& !(self.dir_x == 0 && self.dir_z == 0)
    }

    /// Whether the raw constructor parameters describe a buildable layer.
    pub open spec fn params_valid(
        wavelength: i64,
        amplitude: i64,
        speed: i64,
        dir_x: i64,
        dir_z: i64,
        steepness: i64,
    ) -> bool {
        &&& 1 <= wavelength <= WAVELENGTH_LIMIT
        &&& 0 <= amplitude <= AMP_LIMIT
        &&& absi(speed as int) <= WAVE_SPEED_LIMIT
        &&& 0 <= steepness <= SCALE
        &&& absi(dir_x as int) <= DIR_RAW_LIMIT
        &&& absi(dir_z as int) <= DIR_RAW_LIMIT
        &&& !(dir_x == 0 && dir_z == 0)
    }

    /// Builds a layer, normalizing the direction vector. Returns `None`
    /// exactly when a parameter is degenerate (a non-positive or oversized
    /// wavelength, an out-of-range amplitude, speed or steepness, or a zero
    /// direction), so bad configuration is rejected at construction.
    pub fn new(
        wavelength: i64,
        amplitude: i64,
        speed: i64,
        dir_x: i64,
        dir_z: i64,
        steepness: i64,
    ) -> (r: Option<GerstnerWave>)
        ensures
            r.is_some() <==> Self::params_valid(
                wavelength,
                amplitude,
                speed,
                dir_x,
                dir_z,
                steepness,
            ),
            r.is_some() ==> {
                let w = r.unwrap();
                &&& w.wf()
                &&& w.wavelength == wavelength
                &&& w.amplitude == amplitude
                &&& w.speed == speed
                &&& w.steepness == steepness
                &&& (w.dir_x as int, w.dir_z as int) == dir_norm(dir_x as int, dir_z as int)
            },
    {
        if !(1 <= wavelength && wavelength <= WAVELENGTH_LIMIT) {
            return None;
        }
        if !(0 <= amplitude && amplitude <= AMP_LIMIT) {
            return None;
        }
        if speed < -WAVE_SPEED_LIMIT || speed > WAVE_SPEED_LIMIT {
            return None;
        }
        if !(0 <= steepness && steepness <= SCALE) {
            return None;
        }
        if dir_x < -DIR_RAW_LIMIT || dir_x > DIR_RAW_LIMIT || dir_z < -DIR_RAW_LIMIT || dir_z
            > DIR_RAW_LIMIT {
            return None;
        }
        if dir_x == 0 && dir_z == 0 {
            return None;
        }
        let (nx, nz) = normalize_dir(dir_x, dir_z);
        Some(
            GerstnerWave {
                wavelength,
                amplitude,
                speed,
                dir_x: nx,
                dir_z: nz,
                steepness,
            },
        )
    }
}

/// One component of a raw direction scaled to unit length: divided by the
/// ceiling square root of the squared length, rounding toward zero, keeping
/// the sign.
pub open spec fn norm_component(d: int, n: int) -> int {
    if d >= 0 {
        (d * SCALE) / n
    } else {
        -((-d * SCALE) / n)
    }
}

/// The normalized direction a raw vector is stored as.
pub open spec fn dir_norm(dx: int, dz: int) -> (int, int) {
    let n = crate::geom::sqrt_cl_of(dx * dx + dz * dz);
    (norm_component(dx, n), norm_component(dz, n))
}

/// Scales a nonzero direction vector to (at most) unit length: exactly the
/// `dir_norm` of the input, so each component keeps its sign and stays
/// proportional to the input up to the fixed-point rounding; the result
/// never exceeds unit length and is nonzero.
fn normalize_dir(dx: i64, dz: i64) -> (r: (i64, i64))
    requires
        absi(dx as int) <= DIR_RAW_LIMIT,
        absi(dz as int) <= DIR_RAW_LIMIT,
        !(dx == 0 && dz == 0),
    ensures
        (r.0 as int, r.1 as int) == dir_norm(dx as int, dz as int),
        absi(r.0 as int) <= SCALE,
        absi(r.1 as int) <= SCALE,
        r.0 * r.0 + r.1 * r.1 <= SCALE * SCALE,
        !(r.0 == 0 && r.1 == 0),
        dx >= 0 ==> r.0 >= 0,
        dx <= 0 ==> r.0 <= 0,
        dz >= 0 ==> r.1 >= 0,
        dz <= 0 ==> r.1 <= 0,
{
    let ax = if dx < 0 {
        -dx
    } else {
        dx
    };
    let az = if dz < 0 {
        -dz
    } else {
        dz
    };
    proof {
        lemma_mul_bound(ax as int, ax as int, DIR_RAW_LIMIT as int, DIR_RAW_LIMIT as int);
        lemma_mul_bound(az as int, az as int, DIR_RAW_LIMIT as int, DIR_RAW_LIMIT as int);
        assert(ax as int * ax as int == dx as int * dx as int && az as int * az as int == dz as int
            * dz as int) by (nonlinear_arith)
            requires
                ax as int == absi(dx as int),
                az as int == absi(dz as int),
        ;
    }
    let sq = (ax * ax + az * az) as u64;
    proof {
        assert(ax * ax + az * az >= 1) by (nonlinear_arith)
            requires
                0 <= ax,
                0 <= az,
                ax != 0 || az != 0,
        ;
    }
    let n64 = isqrt64_ceil(sq);
    proof {
        assert(n64 as int <= 2 * DIR_RAW_LIMIT) by (nonlinear_arith)
            requires
                sq <= 2 * (DIR_RAW_LIMIT as int) * (DIR_RAW_LIMIT as int),
                n64 >= 1,
                (n64 - 1) * (n64 - 1) < sq,
                DIR_RAW_LIMIT == 1000000,
        ;
    }
    let n = n64 as i64;
    let mx = div_fl(ax * SCALE, n);
    let mz = div_fl(az * SCALE, n);
    proof {
        lemma_norm_bounds(ax as int, az as int, n as int, mx as int, mz as int);
    }
    let nx = if dx < 0 {
        -mx
    } else {
        mx
    };
    let nz = if dz < 0 {
        -mz
    } else {
        mz
    };
    proof {
        assert(nx as int * nx as int == mx as int * mx as int) by (nonlinear_arith)
            requires
                nx == mx || nx as int == -(mx as int),
        ;
        assert(nz as int * nz as int == mz as int * mz as int) by (nonlinear_arith)
            requires
                nz == mz || nz as int == -(mz as int),
        ;
    }
    (nx, nz)
}

/// After dividing by a ceiling square root of the squared length, the scaled
/// vector has at most unit length, and its largest component is sizeable.
proof fn lemma_norm_bounds(ax: int, az: int, n: int, mx: int, mz: int)
    requires
        0 <= ax <= DIR_RAW_LIMIT,
        0 <= az <= DIR_RAW_LIMIT,
        ax != 0 || az != 0,
        1 <= n <= 2 * DIR_RAW_LIMIT,
        n * n >= ax * ax + az * az,
        (n - 1) * (n - 1) < ax * ax + az * az,
        mx == (ax * SCALE) / n,
        mz == (az * SCALE) / n,
    ensures
        0 <= mx <= SCALE,
        0 <= mz <= SCALE,
        mx * mx + mz * mz <= SCALE * SCALE,
        mx != 0 || mz != 0,
{
    lemma_div_pos_is_pos(ax * SCALE, n);
    lemma_div_pos_is_pos(az * SCALE, n);
    lemma_fundamental_div_mod(ax * SCALE, n);
    lemma_fundamental_div_mod(az * SCALE, n);
    let rx = (ax * SCALE) % n;
    let rz = (az * SCALE) % n;
    assert(mx * n <= ax * SCALE && mz * n <= az * SCALE) by (nonlinear_arith)
        requires
            ax * SCALE == n * mx + rx,
            az * SCALE == n * mz + rz,
            0 <= rx,
            0 <= rz,
    ;
    assert(mx * mx * (n * n) <= (ax * ax) * (SCALE * SCALE)) by (nonlinear_arith)
        requires
            0 <= mx,
            0 <= ax,
            n >= 1,
            mx * n <= ax * SCALE,
            SCALE == 1000,
    ;
    assert(mz * mz * (n * n) <= (az * az) * (SCALE * SCALE)) by (nonlinear_arith)
        requires
            0 <= mz,
            0 <= az,
            n >= 1,
            mz * n <= az * SCALE,
            SCALE == 1000,
    ;
    assert((mx * mx + mz * mz) * (n * n) <= (n * n) * (SCALE * SCALE)) by (nonlinear_arith)
        requires
            mx * mx * (n * n) <= (ax * ax) * (SCALE * SCALE),
            mz * mz * (n * n) <= (az * az) * (SCALE * SCALE),
            ax * ax + az * az <= n * n,
            SCALE == 1000,
    ;
    assert(mx * mx + mz * mz <= SCALE * SCALE) by (nonlinear_arith)
        requires
            (mx * mx + mz * mz) * (n * n) <= (n * n) * (SCALE * SCALE),
            n >= 1,
    ;
    assert(mx <= SCALE && mz <= SCALE) by (nonlinear_arith)
        requires
            mx * mx + mz * mz <= SCALE * SCALE,
            0 <= mx,
            0 <= mz,
            SCALE == 1000,
    ;
    // The largest raw component m satisfies 2 * m >= n, so m * SCALE / n >= SCALE / 2 > 0.
    let m = if ax >= az {
        ax
    } else {
        az
    };
    assert(2 * m >= n) by (nonlinear_arith)
        requires
            (n - 1) * (n - 1) < ax * ax + az * az,
            0 <= ax <= m,
            0 <= az <= m,
            m == ax || m == az,
            m >= 1,
            n >= 1,
    ;
    assert((m * SCALE) / n >= 1) by {
        assert(m * SCALE >= n * 1) by (nonlinear_arith)
            requires
                2 * m >= n,
                SCALE == 1000,
                m >= 1,
        ;
        lemma_div_is_ordered(n * 1, m * SCALE, n);
        lemma_div_multiples_vanish(1, n);
    };
}

/// Phase angle of one layer at a position and time, reduced to `[0, TURN)`.
pub open spec fn wave_angle(w: GerstnerWave, time: int, x: int, z: int) -> int {
    let travel = (x * w.dir_x + z * w.dir_z) / (SCALE as int) + (w.speed * time) / (
    SECOND as int);
    ((travel % (w.wavelength as int)) * TURN) / (w.wavelength as int)
}

/// Height contribution of one layer, length units.
pub open spec fn wave_term(w: GerstnerWave, time: int, x: int, z: int) -> int {
    (w.amplitude * w.steepness * sin_per(wave_angle(w, time, x, z))) / (SCALE * SCALE)
}

/// Sum of the layer contributions, length units.
pub open spec fn wave_sum(waves: Seq<GerstnerWave>, time: int, x: int, z: int) -> int
    decreases waves.len(),
{
    if waves.len() == 0 {
        0
    } else {
        wave_sum(waves.drop_last(), time, x, z) + wave_term(waves.last(), time, x, z)
    }
}

/// Water surface height at a position and time, length units.
pub open spec fn height_spec(waves: Seq<GerstnerWave>, time: int, x: int, z: int) -> int {
    SEA_LEVEL + wave_sum(waves, time, x, z)
}

/// Computes one layer's phase angle.
fn wave_angle_at(w: &GerstnerWave, time: i64, x: i64, z: i64) -> (a: i64)
    requires
        w.wf(),
        0 <= time <= TIME_LIMIT,
        absi(x as int) <= 2 * POS_LIMIT,
        absi(z as int) <= 2 * POS_LIMIT,
    ensures
        a == wave_angle(*w, time as int, x as int, z as int),
        0 <= a < TURN,
{
    proof {
        lemma_mul_bound(x as int, w.dir_x as int, 20000000, 1000);
        lemma_mul_bound(z as int, w.dir_z as int, 20000000, 1000);
        lemma_mul_bound(w.speed as int, time as int, 100000, 1000000000000);
    }
    let proj = div_fl(x * w.dir_x + z * w.dir_z, SCALE);
    let shift = div_fl(w.speed * time, SECOND);
    proof {
        lemma_div_fl_abs((x * w.dir_x + z * w.dir_z) as int, SCALE as int);
        lemma_div_fl_abs((w.speed * time) as int, SECOND as int);
    }
    let travel = proj + shift;
    let ph = mod_fl(travel, w.wavelength);
    proof {
        lemma_mul_bound(ph as int, TURN as int, 1000000000, 4000);
        lemma_div_pos_is_pos((ph * TURN) as int, w.wavelength as int);
        lemma_multiply_divide_lt((ph * TURN) as int, w.wavelength as int, TURN as int);
        assert((ph as int) * (TURN as int) < (w.wavelength as int) * (TURN as int))
            by (nonlinear_arith)
            requires
                0 <= ph < w.wavelength,
                TURN == 4000,
        ;
    }
    div_fl(ph * TURN, w.wavelength)
}

/// Computes one layer's height contribution; its magnitude never exceeds the
/// layer's amplitude.
fn wave_term_at(w: &GerstnerWave, time: i64, x: i64, z: i64) -> (r: i64)
    requires
        w.wf(),
        0 <= time <= TIME_LIMIT,
        absi(x as int) <= 2 * POS_LIMIT,
        absi(z as int) <= 2 * POS_LIMIT,
    ensures
        r == wave_term(*w, time as int, x as int, z as int),
        absi(r as int) <= w.amplitude,
{
    let a = wave_angle_at(w, time, x, z);
    let s = sin_fx(a);
    proof {
        lemma_mul_bound(w.amplitude as int, w.steepness as int, AMP_LIMIT as int, SCALE as int);
        lemma_mul_bound(
            (w.amplitude * w.steepness) as int,
            s as int,
            (AMP_LIMIT as int) * (SCALE as int),
            SCALE as int,
        );
        let num = (w.amplitude * w.steepness * s) as int;
        let d = (SCALE * SCALE) as int;
        assert(num <= w.amplitude * d && -(w.amplitude * d) <= num) by (nonlinear_arith)
            requires
                0 <= w.steepness <= SCALE,
                0 <= w.amplitude,
                -SCALE <= s <= SCALE,
                num == w.amplitude * w.steepness * s,
                d == SCALE * SCALE,
                SCALE == 1000,
        ;
        lemma_div_is_ordered(num, w.amplitude * d, d);
        lemma_div_is_ordered(-(w.amplitude * d), num, d);
        lemma_div_multiples_vanish(w.amplitude as int, d);
        lemma_div_multiples_vanish(-(w.amplitude as int), d);
        assert(d * w.amplitude == w.amplitude * d) by (nonlinear_arith);
        assert(d * (-(w.amplitude as int)) == -(w.amplitude * d)) by (nonlinear_arith);
    }
    div_fl(w.amplitude * w.steepness * s, SCALE * SCALE)
}

/// The raw phase position of a layer: how far along the wave train the point
/// sits, before reduction to one wavelength.
pub open spec fn wave_travel(w: GerstnerWave, time: int, x: int, z: int) -> int {
    (x * w.dir_x + z * w.dir_z) / (SCALE as int) + (w.speed * time) / (SECOND as int)
}

/// The reduced angle has the same oscillator value as the unreduced one, so
/// the layer is periodic in its travel with no seam at wavelength borders.
proof fn lemma_wave_angle_unwrap(w: GerstnerWave, time: int, x: int, z: int)
    requires
        1 <= w.wavelength,
    ensures
        sin_per(wave_angle(w, time, x, z)) == sin_per(
            (wave_travel(w, time, x, z) * TURN) / (w.wavelength as int),
        ),
{
    let lam = w.wavelength as int;
    let p = wave_travel(w, time, x, z);
    lemma_fundamental_div_mod(p, lam);
    let q = p / lam;
    let r = p % lam;
    lemma_fundamental_div_mod(r * (TURN as int), lam);
    let s = (r * (TURN as int)) / lam;
    let u = (r * (TURN as int)) % lam;
    assert(p * (TURN as int) == (q * (TURN as int) + s) * lam + u) by (nonlinear_arith)
        requires
            p == lam * q + r,
            r * (TURN as int) == lam * s + u,
            TURN == 4000,
    ;
    lemma_fundamental_div_mod_converse(
        p * (TURN as int),
        lam,
        q * (TURN as int) + s,
        u,
    );
    crate::trig::lemma_sin_periodic_multiple(s, q);
    assert(s + q * (TURN as int) == q * (TURN as int) + s);
}

/// How much one layer's height contribution can move between two samples a
/// given position distance and time distance apart: the layer's slope over
/// that distance, plus one angle step and one length unit of rounding.
pub open spec fn wave_wiggle(w: GerstnerWave, dist: int, tdist: int) -> int {
    let steps = dist + (absi(w.speed as int) * tdist) / (SECOND as int) + 2;
    (w.amplitude * w.steepness * ((TURN * steps) / (w.wavelength as int) + 1)) / (SCALE * SCALE)
        + 1
}

/// One layer's contribution moves by at most its wiggle bound between any
/// two sample points.
proof fn lemma_wave_term_continuous(
    w: GerstnerWave,
    time: int,
    x: int,
    z: int,
    time2: int,
    x2: int,
    z2: int,
)
    requires
        w.wf(),
    ensures
        absi(wave_term(w, time, x, z) - wave_term(w, time2, x2, z2)) <= wave_wiggle(
            w,
            absi(x - x2) + absi(z - z2),
            absi(time - time2),
        ),
{
    let s = SCALE as int;
    let sec = SECOND as int;
    let lam = w.wavelength as int;
    let t4 = TURN as int;
    let dist = absi(x - x2) + absi(z - z2);
    let tdist = absi(time - time2);
    let sdt = (absi(w.speed as int) * tdist) / sec;
    // Step A: the travels differ by at most dist + sdt + 2.
    let a1 = x * w.dir_x + z * w.dir_z;
    let a2 = x2 * w.dir_x + z2 * w.dir_z;
    assert(absi(a1 - a2) <= dist * s) by (nonlinear_arith)
        requires
            a1 == x * w.dir_x + z * w.dir_z,
            a2 == x2 * w.dir_x + z2 * w.dir_z,
            absi(w.dir_x as int) <= s,
            absi(w.dir_z as int) <= s,
            dist == absi(x - x2) + absi(z - z2),
            s == 1000,
    ;
    lemma_div_sub(a1, a2, s);
    lemma_div_is_ordered(absi(a1 - a2), dist * s, s);
    lemma_div_multiples_vanish(dist, s);
    assert(dist * s == s * dist) by (nonlinear_arith);
    let b1 = w.speed * time;
    let b2 = w.speed * time2;
    assert(absi(b1 - b2) == absi(w.speed as int) * tdist) by (nonlinear_arith)
        requires
            b1 == w.speed * time,
            b2 == w.speed * time2,
            tdist == absi(time - time2),
    ;
    lemma_div_sub(b1, b2, sec);
    let p1 = wave_travel(w, time, x, z);
    let p2 = wave_travel(w, time2, x2, z2);
    assert(absi(p1 - p2) <= dist + sdt + 2);
    // Step B: the unreduced angles differ by at most the slope over that.
    let steps = dist + sdt + 2;
    lemma_div_sub(p1 * t4, p2 * t4, lam);
    assert(absi(p1 * t4 - p2 * t4) == absi(p1 - p2) * t4) by (nonlinear_arith)
        requires
            t4 == 4000,
    ;
    assert(absi(p1 - p2) * t4 <= t4 * steps) by (nonlinear_arith)
        requires
            absi(p1 - p2) <= steps,
            t4 == 4000,
    ;
    lemma_div_is_ordered(absi(p1 * t4 - p2 * t4), t4 * steps, lam);
    let aa1 = (p1 * t4) / lam;
    let aa2 = (p2 * t4) / lam;
    let abound = (t4 * steps) / lam + 1;
    assert(absi(aa1 - aa2) <= abound);
    // Step C: the oscillator is 1-Lipschitz and periodic, so the layer's
    // oscillation moves by at most the angle difference.
    lemma_wave_angle_unwrap(w, time, x, z);
    lemma_wave_angle_unwrap(w, time2, x2, z2);
    crate::trig::lemma_sin_lipschitz(aa1, aa2);
    let s1 = sin_per(wave_angle(w, time, x, z));
    let s2 = sin_per(wave_angle(w, time2, x2, z2));
    assert(absi(s1 - s2) <= abound);
    // Step D: amplitude and steepness scale the oscillation into heights.
    let n1 = w.amplitude * w.steepness * s1;
    let n2 = w.amplitude * w.steepness * s2;
    assert(absi(n1 - n2) <= w.amplitude * w.steepness * abound && 0 <= abound) by (nonlinear_arith)
        requires
            n1 == w.amplitude * w.steepness * s1,
            n2 == w.amplitude * w.steepness * s2,
            absi(s1 - s2) <= abound,
            0 <= w.amplitude,
            0 <= w.steepness,
            0 <= absi(s1 - s2),
    ;
    lemma_div_sub(n1, n2, s * s);
    lemma_div_is_ordered(absi(n1 - n2), w.amplitude * w.steepness * abound, s * s);
}

/// The total wiggle bound of a wave list: the sum of its layers' bounds.
pub open spec fn wiggle_sum(waves: Seq<GerstnerWave>, dist: int, tdist: int) -> int
    decreases waves.len(),
{
    if waves.len() == 0 {
        0
    } else {
        wiggle_sum(waves.drop_last(), dist, tdist) + wave_wiggle(waves.last(), dist, tdist)
    }
}

/// Continuity of the wave field: between any two positions and times, the
/// surface height moves by at most the summed layer wiggle bounds — a
/// Lipschitz-style bound in the position and time distances that collapses
/// to the fixed per-layer rounding slack as the samples approach each other.
/// Together with `height_spec` being a pure function of its arguments (the
/// same inputs always give the same height), this is the discrete form of a
/// deterministic, continuous field: no seams between wave layers and no
/// jumps anywhere in space or time.
pub proof fn lemma_height_continuous(
    waves: Seq<GerstnerWave>,
    time: int,
    x: int,
    z: int,
    time2: int,
    x2: int,
    z2: int,
)
    requires
        forall|i: int| 0 <= i < waves.len() ==> #[trigger] waves[i].wf(),
    ensures
        absi(
            height_spec(waves, time, x, z) - height_spec(waves, time2, x2, z2),
        ) <= wiggle_sum(waves, absi(x - x2) + absi(z - z2), absi(time - time2)),
    decreases waves.len(),
{
    if waves.len() > 0 {
        assert(forall|i: int|
            0 <= i < waves.drop_last().len() ==> #[trigger] waves.drop_last()[i].wf());
        lemma_height_continuous(waves.drop_last(), time, x, z, time2, x2, z2);
        assert(waves[waves.len() - 1].wf());
        lemma_wave_term_continuous(waves.last(), time, x, z, time2, x2, z2);
    }
}

/// The foam intensity derived from four neighbouring surface heights by
/// central finite differences: the slope magnitude, mapped linearly from the
/// `lo` threshold (no foam) to the `hi` threshold (full foam). Gradients are
/// capped at a slope of one hundred, far past full foam.
pub open spec fn foam_spec(h_l: int, h_r: int, h_d: int, h_u: int, cell: int, lo: int, hi: int) -> int {
    let gx = clampi((h_r - h_l) * SCALE / (2 * cell), -100000, 100000);
    let gz = clampi((h_u - h_d) * SCALE / (2 * cell), -100000, 100000);
    let steep = sqrt_fl_of(gx * gx + gz * gz);
    clampi(((steep - lo) * SCALE) / (hi - lo), 0, SCALE as int)
}

/// Computes the foam intensity at a surface sample from its four neighbours'
/// heights: the companion visual signal of the wave field, derived by finite
/// differencing from the same primitive the buoyancy queries use.
pub fn foam_intensity(h_l: i64, h_r: i64, h_d: i64, h_u: i64, cell: i64, lo: i64, hi: i64) -> (r:
    i64)
    requires
        absi(h_l as int) <= 2 * POS_LIMIT,
        absi(h_r as int) <= 2 * POS_LIMIT,
        absi(h_d as int) <= 2 * POS_LIMIT,
        absi(h_u as int) <= 2 * POS_LIMIT,
        1 <= cell <= 1000000000,
        0 <= lo < hi <= 1000000,
    ensures
        r == foam_spec(
            h_l as int,
            h_r as int,
            h_d as int,
            h_u as int,
            cell as int,
            lo as int,
            hi as int,
        ),
        0 <= r <= SCALE,
{
    proof {
        lemma_mul_bound((h_r - h_l) as int, SCALE as int, 40000000, 1000);
        lemma_mul_bound((h_u - h_d) as int, SCALE as int, 40000000, 1000);
    }
    let gx = crate::units::clamp64(div_fl((h_r - h_l) * SCALE, 2 * cell), -100000, 100000);
    let gz = crate::units::clamp64(div_fl((h_u - h_d) * SCALE, 2 * cell), -100000, 100000);
    proof {
        lemma_mul_bound(gx as int, gx as int, 100000, 100000);
        lemma_mul_bound(gz as int, gz as int, 100000, 100000);
        assert((gx as int) * (gx as int) >= 0 && (gz as int) * (gz as int) >= 0)
            by (nonlinear_arith);
    }
    let s2 = gx * gx + gz * gz;
    let steep = crate::geom::isqrt64(s2 as u64) as i64;
    proof {
        assert(steep <= 150000) by (nonlinear_arith)
            requires
                (steep as int) * (steep as int) <= s2 as int,
                s2 <= 20000000000,
                steep >= 0,
        ;
        lemma_mul_bound((steep - lo) as int, SCALE as int, 1150000, 1000);
    }
    crate::units::clamp64(div_fl((steep - lo) * SCALE, hi - lo), 0, SCALE)
}

/// Determinism of the wave field: the height is a pure function of the wave
/// list, the clock and the position, so any two samples of the same inputs
/// agree — there is no hidden state and no other input.
pub proof fn lemma_height_deterministic(
    waves: Seq<GerstnerWave>,
    time: int,
    x: int,
    z: int,
    h1: int,
    h2: int,
)
    requires
        h1 == height_spec(waves, time, x, z),
        h2 == height_spec(waves, time, x, z),
    ensures
        h1 == h2,
{
}

/// Ocean solver: the simulation clock plus the wave layers. Shared, read-mostly
/// state; the clock has a single writer per tick.
pub struct OceanSolver {
    pub time: i64,
    pub waves: Vec<GerstnerWave>,
}

impl Default for OceanSolver {
    /// The default sea: three fixed superposed layers, from a long swell to
    /// short chop, with the clock at zero. The stored directions are the
    /// normalized forms of (1, 0.2), (0.7, 0.7) and (0.2, 1).
    fn default() -> (s: Self)
        ensures
            s.wf(),
            s.time == 0,
            s.waves@.len() == 3,
            s.waves@[0] == (GerstnerWave {
                wavelength: 60000,
                amplitude: 600,
                speed: 4000,
                dir_x: 980,
                dir_z: 196,
                steepness: 400,
            }),
            s.waves@[1] == (GerstnerWave {
                wavelength: 35000,
                amplitude: 350,
                speed: 2500,
                dir_x: 707,
                dir_z: 707,
                steepness: 600,
            }),
            s.waves@[2] == (GerstnerWave {
                wavelength: 15000,
                amplitude: 200,
                speed: 3500,
                dir_x: 196,
                dir_z: 980,
                steepness: 800,
            }),
    {
        let w0 = GerstnerWave::new(60000, 600, 4000, 1000, 200, 400);
        let w1 = GerstnerWave::new(35000, 350, 2500, 700, 700, 600);
        let w2 = GerstnerWave::new(15000, 200, 3500, 200, 1000, 800);
        proof {
            assert(crate::geom::is_sqrt_fl(1019, 1040000)) by (nonlinear_arith);
            crate::geom::lemma_sqrt_fl_unique(1019, 1040000);
            assert(crate::geom::is_sqrt_fl(989, 980000)) by (nonlinear_arith);
            crate::geom::lemma_sqrt_fl_unique(989, 980000);
            assert(1019 * 1019 == 1038361 && 989 * 989 == 978121) by (nonlinear_arith);
            lemma_fundamental_div_mod_converse(1000000, 1020, 980, 400);
            lemma_fundamental_div_mod_converse(200000, 1020, 196, 80);
            lemma_fundamental_div_mod_converse(700000, 990, 707, 70);
        }
        let mut waves: Vec<GerstnerWave> = Vec::new();
        waves.push(w0.unwrap());
        waves.push(w1.unwrap());
        waves.push(w2.unwrap());
        OceanSolver { time: 0, waves }
    }
}

impl OceanSolver {
    /// Well-formed field: a bounded clock and bounded, well-formed layers.
    pub open spec fn wf(self) -> bool {
        &&& 0 <= self.time <= TIME_LIMIT
        &&& self.waves@.len() <= MAX_WAVES
        &&& forall|i: int| 0 <= i < self.waves@.len() ==> #[trigger] self.waves@[i].wf()
    }

    /// Advances the simulation clock; the single write to shared ocean state
    /// each tick. Saturates at the clock limit instead of overflowing.
    pub fn advance_time(&mut self, dt: i64)
        requires
            old(self).wf(),
            0 <= dt <= DT_LIMIT,
        ensures
            final(self).wf(),
            final(self).time == clampi(old(self).time + dt, 0, TIME_LIMIT as int),
            final(self).waves == old(self).waves,
    {
        if self.time <= TIME_LIMIT - dt {
            self.time = self.time + dt;
        } else {
            self.time = TIME_LIMIT;
        }
    }

    /// Returns the water surface height at a world position (only the
    /// horizontal coordinates matter).
    pub fn wave_height_at(&self, pos: Vec3Fx) -> (h: i64)
        requires
            self.wf(),
            pos.bounded(2 * POS_LIMIT as int),
        ensures
            h == height_spec(self.waves@, self.time as int, pos.x as int, pos.z as int),
            absi((h - SEA_LEVEL) as int) <= self.waves@.len() * AMP_LIMIT,
    {
        let ghost t = self.time as int;
        let ghost px = pos.x as int;
        let ghost pz = pos.z as int;
        let n = self.waves.len();
        let mut acc: i64 = 0;
        let mut i: usize = 0;
        while i < n
            invariant
                self.wf(),
                pos.bounded(2 * POS_LIMIT as int),
                n == self.waves@.len(),
                0 <= i <= n,
                t == self.time as int,
                px == pos.x as int,
                pz == pos.z as int,
                acc == wave_sum(self.waves@.take(i as int), t, px, pz),
                absi(acc as int) <= i * AMP_LIMIT,
            decreases n - i,
        {
            let w = self.waves[i];
            proof {
                assert(self.waves@[i as int].wf());
            }
            let term = wave_term_at(&w, self.time, pos.x, pos.z);
            proof {
                assert(self.waves@.take(i + 1).drop_last() =~= self.waves@.take(i as int));
                assert(self.waves@.take(i + 1).last() == w);
            }
            acc = acc + term;
            i = i + 1;
        }
        proof {
            assert(self.waves@.take(n as int) =~= self.waves@);
        }
        SEA_LEVEL + acc
    }
}

} // verus!
