//! Oxygen pools: depth-aware drain, surface refill, and the respawn trigger.
//!
//! The character's pool drains while submerged (faster past a pressure depth),
//! refills toward its maximum at the surface, and on reaching zero fires a
//! single respawn event and refills instantly — a hard recovery action, not an
//! error. The submersible's diving-bell supply drains and refills the same
//! way, but never triggers a respawn of its own.

use vstd::prelude::*;
use crate::units::{
    clamp64, clampi, div_tz, div_tz_spec, lemma_div_tz_props, lemma_mul_bound, DT_LIMIT, SECOND,
};

verus! {

/// Largest accepted oxygen capacity or rate.
pub const OXY_LIMIT: i64 = 1000000000;

/// Depth below sea level past which pressure multiplies the drain.
pub const PRESSURE_DEPTH_THRESHOLD: i64 = 50000;

/// Drain multiplier applied below the pressure depth.
pub const PRESSURE_DRAIN_MULTIPLIER: i64 = 3;

/// Oxygen while swimming. Refills at the surface; drains underwater; the
/// swimmer respawns on drowning.
#[derive(Clone, Copy, PartialEq, Eq, Structural, Debug)]
pub struct CharacterOxygen {
    pub max: i64,
    pub current: i64,
    pub drain_rate: i64,
    pub refill_rate: i64,
}

impl CharacterOxygen {
    /// Well-formed pool: the level always stays within `[0, max]`.
    pub open spec fn wf(self) -> bool {
        &&& 1 <= self.max <= OXY_LIMIT
        &&& 0 <= self.current <= self.max
        &&& 0 <= self.drain_rate <= OXY_LIMIT
        &&& 0 <= self.refill_rate <= OXY_LIMIT
    }
}

impl Default for CharacterOxygen {
    /// A full sixty-unit pool draining at 1.2 per second submerged and
    /// refilling at 25 per second at the surface.
    fn default() -> (s: Self)
        ensures
            s == (CharacterOxygen {
                max: 60000,
                current: 60000,
                drain_rate: 1200,
                refill_rate: 25000,
            }),
            s.wf(),
    {
        CharacterOxygen { max: 60000, current: 60000, drain_rate: 1200, refill_rate: 25000 }
    }
}

/// Submersible oxygen supply: drains while the hull is underwater and
/// refills toward its maximum at the surface.
#[derive(Clone, Copy, PartialEq, Eq, Structural, Debug)]
pub struct DivingBell {
    pub max_oxygen: i64,
    pub current_oxygen: i64,
    pub oxygen_drain_rate: i64,
    pub oxygen_refill_rate: i64,
}

impl DivingBell {
    /// Well-formed supply: the level always stays within `[0, max]`.
    pub open spec fn wf(self) -> bool {
        &&& 1 <= self.max_oxygen <= OXY_LIMIT
        &&& 0 <= self.current_oxygen <= self.max_oxygen
        &&& 0 <= self.oxygen_drain_rate <= OXY_LIMIT
        &&& 0 <= self.oxygen_refill_rate <= OXY_LIMIT
    }
}

impl Default for DivingBell {
    /// A full hundred-unit supply draining at two per second underwater and
    /// refilling at twenty-five per second at the surface.
    fn default() -> (s: Self)
        ensures
            s == (DivingBell {
                max_oxygen: 100000,
                current_oxygen: 100000,
                oxygen_drain_rate: 2000,
                oxygen_refill_rate: 25000,
            }),
            s.wf(),
    {
        DivingBell {
            max_oxygen: 100000,
            current_oxygen: 100000,
            oxygen_drain_rate: 2000,
            oxygen_refill_rate: 25000,
        }
    }
}

/// The pressure multiplier at a given depth below sea level.
pub open spec fn depth_multiplier(depth: int) -> int {
    if depth > PRESSURE_DEPTH_THRESHOLD {
        PRESSURE_DRAIN_MULTIPLIER as int
    } else {
        1
    }
}

/// Oxygen drained over one tick at a given rate and pressure multiplier.
pub open spec fn drain_amount(rate: int, mult: int, dt: int) -> int {
    div_tz_spec(rate * mult * dt, SECOND as int)
}

/// The pool after one submerged tick, and whether the drowning event fires:
/// it fires exactly when the drain empties the pool, and then the level
/// resets to the maximum at once.
pub open spec fn oxygen_drain_step(pool: CharacterOxygen, mult: int, dt: int) -> (
    CharacterOxygen,
    bool,
) {
    let lvl = pool.current - drain_amount(pool.drain_rate as int, mult, dt);
    if lvl <= 0 {
        (CharacterOxygen { current: pool.max, ..pool }, true)
    } else {
        (CharacterOxygen { current: lvl as i64, ..pool }, false)
    }
}

/// Drains the pool for one submerged tick. Returns whether the pool ran out;
/// in that case the level has been reset to the maximum (the caller performs
/// the respawn teleport exactly once, guarded by this result).
pub fn oxygen_drain(pool: &mut CharacterOxygen, mult: i64, dt: i64) -> (drowned: bool)
    requires
        old(pool).wf(),
        1 <= mult <= PRESSURE_DRAIN_MULTIPLIER,
        0 <= dt <= DT_LIMIT,
    ensures
        final(pool).wf(),
        (*final(pool), drowned) == oxygen_drain_step(*old(pool), mult as int, dt as int),
{
    proof {
        lemma_mul_bound(pool.drain_rate as int, mult as int, 1000000000, 3);
        lemma_mul_bound((pool.drain_rate * mult) as int, dt as int, 3000000000, 1000000);
        lemma_div_tz_props((pool.drain_rate * mult * dt) as int, SECOND as int);
    }
    let d = div_tz(pool.drain_rate * mult * dt, SECOND);
    if pool.current - d <= 0 {
        pool.current = pool.max;
        true
    } else {
        pool.current = pool.current - d;
        false
    }
}

/// The pool after one surfaced tick: refilled toward the maximum.
pub open spec fn oxygen_refill_step(pool: CharacterOxygen, dt: int) -> CharacterOxygen {
    let lvl = clampi(
        pool.current + div_tz_spec(pool.refill_rate * dt, SECOND as int),
        0,
        pool.max as int,
    );
    CharacterOxygen { current: lvl as i64, ..pool }
}

/// Refills the pool for one surfaced tick, capped at the maximum.
pub fn oxygen_refill(pool: &mut CharacterOxygen, dt: i64)
    requires
        old(pool).wf(),
        0 <= dt <= DT_LIMIT,
    ensures
        final(pool).wf(),
        *final(pool) == oxygen_refill_step(*old(pool), dt as int),
{
    proof {
        lemma_mul_bound(pool.refill_rate as int, dt as int, 1000000000, 1000000);
        lemma_div_tz_props((pool.refill_rate * dt) as int, SECOND as int);
    }
    let d = div_tz(pool.refill_rate * dt, SECOND);
    pool.current = clamp64(pool.current + d, 0, pool.max);
}

/// The bell's supply after one tick: drained toward zero while submerged,
/// refilled toward the maximum at the surface; the level never leaves
/// `[0, max]` and the bell never drowns its crew directly.
pub open spec fn bell_step(bell: DivingBell, submerged: bool, dt: int) -> DivingBell {
    let delta = if submerged {
        -div_tz_spec(bell.oxygen_drain_rate * dt, SECOND as int)
    } else {
        div_tz_spec(bell.oxygen_refill_rate * dt, SECOND as int)
    };
    DivingBell {
        current_oxygen: clampi(
            bell.current_oxygen + delta,
            0,
            bell.max_oxygen as int,
        ) as i64,
        ..bell
    }
}

/// Updates the bell's supply for one tick: drain while the hull is below the
/// waves, refill toward the maximum at the surface.
pub fn diving_bell_oxygen(bell: &mut DivingBell, submerged: bool, dt: i64)
    requires
        old(bell).wf(),
        0 <= dt <= DT_LIMIT,
    ensures
        final(bell).wf(),
        *final(bell) == bell_step(*old(bell), submerged, dt as int),
{
    proof {
        lemma_mul_bound(bell.oxygen_drain_rate as int, dt as int, 1000000000, 1000000);
        lemma_mul_bound(bell.oxygen_refill_rate as int, dt as int, 1000000000, 1000000);
        lemma_div_tz_props((bell.oxygen_drain_rate * dt) as int, SECOND as int);
        lemma_div_tz_props((bell.oxygen_refill_rate * dt) as int, SECOND as int);
    }
    if submerged {
        let d = div_tz(bell.oxygen_drain_rate * dt, SECOND);
        bell.current_oxygen = clamp64(bell.current_oxygen - d, 0, bell.max_oxygen);
    } else {
        let d = div_tz(bell.oxygen_refill_rate * dt, SECOND);
        bell.current_oxygen = clamp64(bell.current_oxygen + d, 0, bell.max_oxygen);
    }
}

/// The pool and the count of drowning events after `n` submerged ticks.
pub open spec fn oxygen_after(pool: CharacterOxygen, mult: int, dt: int, n: nat) -> (
    CharacterOxygen,
    int,
)
    decreases n,
{
    if n == 0 {
        (pool, 0)
    } else {
        let prev = oxygen_after(pool, mult, dt, (n - 1) as nat);
        let step = oxygen_drain_step(prev.0, mult, dt);
        (step.0, prev.1 + if step.1 {
            1int
        } else {
            0int
        })
    }
}

/// Drain schedule law: starting from a full pool, continuous submersion at a
/// fixed per-tick drain `d` loses exactly `d` per tick — after `n` ticks with
/// `n * d < max` the level is exactly `max - n * d` and no drowning has fired.
pub proof fn lemma_oxygen_drain_schedule(pool: CharacterOxygen, mult: int, dt: int, n: nat)
    requires
        pool.wf(),
        pool.current == pool.max,
        1 <= mult <= PRESSURE_DRAIN_MULTIPLIER,
        0 <= dt <= DT_LIMIT,
        n * drain_amount(pool.drain_rate as int, mult, dt) < pool.max,
    ensures
        oxygen_after(pool, mult, dt, n).0 == (CharacterOxygen {
            current: (pool.max - n * drain_amount(pool.drain_rate as int, mult, dt)) as i64,
            ..pool
        }),
        oxygen_after(pool, mult, dt, n).1 == 0,
    decreases n,
{
    let d = drain_amount(pool.drain_rate as int, mult, dt);
    lemma_mul_bound(pool.drain_rate as int, mult, 1000000000, 3);
    lemma_mul_bound(pool.drain_rate as int * mult, dt, 3000000000, 1000000);
    lemma_div_tz_props(pool.drain_rate as int * mult * dt, SECOND as int);
    if n > 0 {
        assert((n - 1) * d <= n * d && 0 <= (n - 1) * d) by (nonlinear_arith)
            requires
                n >= 1,
                d >= 0,
        ;
        lemma_oxygen_drain_schedule(pool, mult, dt, (n - 1) as nat);
        assert(n * d == (n - 1) * d + d) by (nonlinear_arith);
    } else {
        assert(n * d == 0) by (nonlinear_arith)
            requires
                n == 0,
        ;
    }
}

/// Depletion law: starting from a full pool whose capacity is an exact
/// multiple `n * d` of the per-tick drain `d`, the pool reaches zero on the
/// `n`-th submerged tick: exactly one drowning event fires over those `n`
/// ticks, and the level has reset to the maximum.
pub proof fn lemma_oxygen_depletes_once(pool: CharacterOxygen, mult: int, dt: int, n: nat)
    requires
        pool.wf(),
        pool.current == pool.max,
        1 <= mult <= PRESSURE_DRAIN_MULTIPLIER,
        0 <= dt <= DT_LIMIT,
        n >= 1,
        pool.max == n * drain_amount(pool.drain_rate as int, mult, dt),
    ensures
        oxygen_after(pool, mult, dt, n).1 == 1,
        oxygen_after(pool, mult, dt, n).0 == pool,
        oxygen_after(pool, mult, dt, (n - 1) as nat).1 == 0,
{
    let d = drain_amount(pool.drain_rate as int, mult, dt);
    assert(pool.drain_rate as int * mult * dt >= 0) by (nonlinear_arith)
        requires
            pool.drain_rate >= 0,
            mult >= 1,
            dt >= 0,
    ;
    lemma_div_tz_props(pool.drain_rate as int * mult * dt, SECOND as int);
    assert(d >= 1) by (nonlinear_arith)
        requires
            pool.max == n * d,
            pool.max >= 1,
            n >= 1,
            d >= 0,
    ;
    assert((n - 1) * d < pool.max && pool.max - (n - 1) * d == d) by (nonlinear_arith)
        requires
            pool.max == n * d,
            n >= 1,
            d >= 1,
    ;
    lemma_oxygen_drain_schedule(pool, mult, dt, (n - 1) as nat);
}

} // verus!
