//! Ship dynamics: pontoon buoyancy, engine, water drag, island collision.
//!
//! Four fixed hull-corner sample points ("pontoons") sample the wave field
//! each tick; every submerged pontoon contributes an upward force
//! proportional to its submersion depth. Water drag and engine thrust apply
//! while any pontoon is wet, turning torque unconditionally, and gravity
//! always; so the ship falls when airborne and settles toward a float
//! equilibrium in water.

use vstd::prelude::*;
use vstd::arithmetic::div_mod::lemma_div_is_ordered;
use crate::dynamics::{
    accel, accel_spec, axis_step, forward_x, forward_z, integrate_axis, integrate_yaw, mul_fx,
    rot_x, rot_z, rotate_xz, yaw_forward, yaw_step, Pose, ANG_LIMIT, POWER_LIMIT,
};
use crate::geom::{is_sqrt_fl, isqrt64, sqrt_fl_of, Vec3Fx};
use crate::ocean::{height_spec, GerstnerWave, OceanSolver, AMP_LIMIT};
use crate::shapes::{radial_push, SHAPE_LIMIT};
use crate::units::{
    absi, clamp64, clampi, div_away, div_tz, div_tz_spec, lemma_mul_bound, scale_tz, scale_tz_spec,
    DT_LIMIT, POS_LIMIT, SCALE, SEA_LEVEL, SECOND, VEL_LIMIT,
};

verus! {

/// Pontoon sample offsets in ship-local units: x, y, z of the four corners.
pub const PONTOON_X: i64 = 1500;

/// Vertical offset of every pontoon below the ship origin.
pub const PONTOON_Y: i64 = -500;

/// Fore/aft offset of the pontoon pairs.
pub const PONTOON_Z: i64 = 2000;

/// Downward acceleration applied to the hull, length units per second squared
/// (half strength: the floats carry the other half).
pub const SHIP_GRAVITY: i64 = 4900;

/// Per-tick linear velocity retention factor (fixed-point).
pub const SHIP_LINEAR_RETAIN: i64 = 990;

/// Per-tick angular velocity retention factor (fixed-point).
pub const SHIP_ANGULAR_RETAIN: i64 = 980;

/// Broad-phase collision radius of the ship, length units.
pub const SHIP_COLLISION_RADIUS: i64 = 10000;

/// Ship tuning constants and current control inputs.
#[derive(Clone, Copy, PartialEq, Eq, Structural, Debug)]
pub struct Ship {
    pub float_force: i64,
    pub water_drag: i64,
    pub engine_power: i64,
    pub turn_speed: i64,
    pub current_throttle: i64,
    pub current_steering: i64,
}

impl Ship {
    /// Well-formed: bounded tuning constants, normalized control inputs.
    pub open spec fn wf(self) -> bool {
        &&& 0 <= self.float_force <= POWER_LIMIT
        &&& 0 <= self.water_drag <= POWER_LIMIT
        &&& 0 <= self.engine_power <= POWER_LIMIT
        &&& 0 <= self.turn_speed <= POWER_LIMIT
        &&& absi(self.current_throttle as int) <= SCALE
        &&& absi(self.current_steering as int) <= SCALE
    }
}

impl Default for Ship {
    /// The stock hull: strong floats, mild water drag, a 22-unit engine and
    /// a turn rate near three and a half radians per second squared.
    fn default() -> (s: Self)
        ensures
            s == (Ship {
                float_force: 4000000,
                water_drag: 2000,
                engine_power: 22000,
                turn_speed: 2228000,
                current_throttle: 0,
                current_steering: 0,
            }),
            s.wf(),
    {
        Ship {
            float_force: 4000000,
            water_drag: 2000,
            engine_power: 22000,
            turn_speed: 2228000,
            current_throttle: 0,
            current_steering: 0,
        }
    }
}

/// Linear and (yaw) angular velocity of the ship.
#[derive(Clone, Copy, PartialEq, Eq, Structural, Debug)]
pub struct ShipVelocity {
    pub linear: Vec3Fx,
    pub angular_y: i64,
}

impl ShipVelocity {
    /// Well-formed: within the global velocity limits.
    pub open spec fn wf(self) -> bool {
        self.linear.bounded(VEL_LIMIT as int) && absi(self.angular_y as int) <= ANG_LIMIT
    }
}

impl Default for ShipVelocity {
    /// At rest.
    fn default() -> (s: Self)
        ensures
            s == (ShipVelocity { linear: Vec3Fx { x: 0, y: 0, z: 0 }, angular_y: 0 }),
            s.wf(),
    {
        ShipVelocity { linear: Vec3Fx { x: 0, y: 0, z: 0 }, angular_y: 0 }
    }
}

/// A static island's broad-phase collider: world center and radius.
#[derive(Clone, Copy, PartialEq, Eq, Structural, Debug)]
pub struct IslandCollider {
    pub center: Vec3Fx,
    pub radius: i64,
}

impl IslandCollider {
    /// Well-formed: bounded center and positive bounded radius.
    pub open spec fn wf(self) -> bool {
        self.center.bounded(POS_LIMIT as int) && 1 <= self.radius <= SHAPE_LIMIT
    }
}

/// Submersion depth of the pontoon at local offset `(ox, oz)`: wave height at
/// its world position minus its world height. Positive means underwater.
pub open spec fn pontoon_depth(
    waves: Seq<GerstnerWave>,
    time: int,
    pose: Pose,
    ox: int,
    oz: int,
) -> int {
    let wx = pose.pos.x + rot_x(pose.yaw as int, ox, oz);
    let wz = pose.pos.z + rot_z(pose.yaw as int, ox, oz);
    height_spec(waves, time, wx, wz) - (pose.pos.y + PONTOON_Y)
}

/// Upward velocity gain one pontoon contributes over a tick: proportional to
/// its submersion depth and the float-force constant; zero when dry.
pub open spec fn pontoon_lift(ff: int, depth: int, dt: int) -> int {
    if depth > 0 {
        div_tz_spec(div_tz_spec(depth * ff, 100000000) * dt, 1000)
    } else {
        0
    }
}

/// Total pontoon lift over the four hull corners.
pub open spec fn ship_lift(waves: Seq<GerstnerWave>, time: int, ship: Ship, pose: Pose, dt: int) -> int {
    let ff = ship.float_force as int;
    pontoon_lift(ff, pontoon_depth(waves, time, pose, -PONTOON_X as int, -PONTOON_Z as int), dt)
        + pontoon_lift(ff, pontoon_depth(waves, time, pose, PONTOON_X as int, -PONTOON_Z as int), dt)
        + pontoon_lift(ff, pontoon_depth(waves, time, pose, -PONTOON_X as int, PONTOON_Z as int), dt)
        + pontoon_lift(ff, pontoon_depth(waves, time, pose, PONTOON_X as int, PONTOON_Z as int), dt)
}

/// Whether any pontoon is underwater.
pub open spec fn ship_wet(waves: Seq<GerstnerWave>, time: int, pose: Pose) -> bool {
    ||| pontoon_depth(waves, time, pose, -PONTOON_X as int, -PONTOON_Z as int) > 0
    ||| pontoon_depth(waves, time, pose, PONTOON_X as int, -PONTOON_Z as int) > 0
    ||| pontoon_depth(waves, time, pose, -PONTOON_X as int, PONTOON_Z as int) > 0
    ||| pontoon_depth(waves, time, pose, PONTOON_X as int, PONTOON_Z as int) > 0
}

/// Water drag retention factor for a tick (fixed-point, at most one).
pub open spec fn ship_drag_factor(wd: int, dt: int) -> int {
    clampi(SCALE - div_tz_spec(wd * dt, 10000000), 0, SCALE as int)
}

/// The ship's velocity after the buoyancy pass: submerged pontoons push up,
/// and water drag damps the whole velocity while any pontoon is wet.
pub open spec fn ship_buoyancy_step(
    waves: Seq<GerstnerWave>,
    time: int,
    ship: Ship,
    pose: Pose,
    v: (int, int, int),
    dt: int,
) -> (int, int, int) {
    let vy = v.1 + ship_lift(waves, time, ship, pose, dt);
    let f = if ship_wet(waves, time, pose) {
        ship_drag_factor(ship.water_drag as int, dt)
    } else {
        SCALE as int
    };
    (
        clampi(scale_tz_spec(v.0, f), -(VEL_LIMIT as int), VEL_LIMIT as int),
        clampi(scale_tz_spec(vy, f), -(VEL_LIMIT as int), VEL_LIMIT as int),
        clampi(scale_tz_spec(v.2, f), -(VEL_LIMIT as int), VEL_LIMIT as int),
    )
}

/// Samples one pontoon and returns its lift and whether it is underwater.
fn pontoon_buoyancy(ocean: &OceanSolver, ship: &Ship, pose: &Pose, ox: i64, oz: i64, dt: i64) -> (r:
    (i64, bool))
    requires
        ocean.wf(),
        ship.wf(),
        pose.wf(),
        absi(ox as int) <= 10000,
        absi(oz as int) <= 10000,
        0 <= dt <= DT_LIMIT,
    ensures
        r.0 == pontoon_lift(
            ship.float_force as int,
            pontoon_depth(ocean.waves@, ocean.time as int, *pose, ox as int, oz as int),
            dt as int,
        ),
        r.1 == (pontoon_depth(ocean.waves@, ocean.time as int, *pose, ox as int, oz as int) > 0),
        0 <= r.0 <= 300000000000,
{
    let (rx, rz) = rotate_xz(pose.yaw, ox, oz);
    let world = Vec3Fx { x: pose.pos.x + rx, y: pose.pos.y + PONTOON_Y, z: pose.pos.z + rz };
    let h = ocean.wave_height_at(world);
    let depth = h - world.y;
    if depth > 0 {
        proof {
            assert(absi(depth as int) <= 30000000) by {
                assert(absi((h - SEA_LEVEL) as int) <= ocean.waves@.len() * AMP_LIMIT);
                assert(ocean.waves@.len() * AMP_LIMIT <= 64 * 100000) by (nonlinear_arith)
                    requires
                        ocean.waves@.len() <= 64,
                        AMP_LIMIT == 100000,
                ;
            };
            lemma_mul_bound(depth as int, ship.float_force as int, 30000000, 1000000000);
        }
        let a = div_tz(depth * ship.float_force, 100000000);
        proof {
            assert(absi(a as int) <= 300000000) by {
                assert(absi((depth * ship.float_force) as int) / 100000000 <= 300000000) by {
                    vstd::arithmetic::div_mod::lemma_div_is_ordered(
                        absi((depth * ship.float_force) as int),
                        30000000000000000,
                        100000000,
                    );
                };
                crate::units::lemma_div_tz_props((depth * ship.float_force) as int, 100000000);
            };
            lemma_mul_bound(a as int, dt as int, 300000000, 1000000);
            crate::units::lemma_div_tz_props((a * dt) as int, 1000);
            vstd::arithmetic::div_mod::lemma_div_is_ordered(
                absi((a * dt) as int),
                300000000000000,
                1000,
            );
        }
        let lift = div_tz(a * dt, 1000);
        (lift, true)
    } else {
        (0, false)
    }
}

/// Buoyancy pass: accumulates pontoon lift into the vertical velocity and
/// applies water drag while any pontoon is submerged.
pub fn ship_buoyancy(
    ocean: &OceanSolver,
    ship: &Ship,
    pose: &Pose,
    vel: &mut ShipVelocity,
    dt: i64,
)
    requires
        ocean.wf(),
        ship.wf(),
        pose.wf(),
        old(vel).wf(),
        0 <= dt <= DT_LIMIT,
    ensures
        final(vel).wf(),
        (final(vel).linear.x as int, final(vel).linear.y as int, final(vel).linear.z as int)
            == ship_buoyancy_step(
            ocean.waves@,
            ocean.time as int,
            *ship,
            *pose,
            (old(vel).linear.x as int, old(vel).linear.y as int, old(vel).linear.z as int),
            dt as int,
        ),
        final(vel).angular_y == old(vel).angular_y,
{
    let (l0, w0) = pontoon_buoyancy(ocean, ship, pose, -PONTOON_X, -PONTOON_Z, dt);
    let (l1, w1) = pontoon_buoyancy(ocean, ship, pose, PONTOON_X, -PONTOON_Z, dt);
    let (l2, w2) = pontoon_buoyancy(ocean, ship, pose, -PONTOON_X, PONTOON_Z, dt);
    let (l3, w3) = pontoon_buoyancy(ocean, ship, pose, PONTOON_X, PONTOON_Z, dt);
    let lift = l0 + l1 + l2 + l3;
    let wet = w0 || w1 || w2 || w3;
    let vy = vel.linear.y + lift;
    let f = if wet {
        proof {
            lemma_mul_bound(ship.water_drag as int, dt as int, 1000000000, 1000000);
        }
        clamp64(SCALE - div_tz(ship.water_drag * dt, 10000000), 0, SCALE)
    } else {
        SCALE
    };
    let nvx = clamp64(scale_tz(vel.linear.x, f), -VEL_LIMIT, VEL_LIMIT);
    let nvy = clamp64(scale_tz(vy, f), -VEL_LIMIT, VEL_LIMIT);
    let nvz = clamp64(scale_tz(vel.linear.z, f), -VEL_LIMIT, VEL_LIMIT);
    vel.linear = Vec3Fx { x: nvx, y: nvy, z: nvz };
}

/// Tests whether the pontoon at a local offset sits below the wave surface.
fn pontoon_submerged(ocean: &OceanSolver, pose: &Pose, ox: i64, oz: i64) -> (r: bool)
    requires
        ocean.wf(),
        pose.wf(),
        absi(ox as int) <= 10000,
        absi(oz as int) <= 10000,
    ensures
        r == (pontoon_depth(ocean.waves@, ocean.time as int, *pose, ox as int, oz as int) > 0),
{
    let (rx, rz) = rotate_xz(pose.yaw, ox, oz);
    let world = Vec3Fx { x: pose.pos.x + rx, y: pose.pos.y + PONTOON_Y, z: pose.pos.z + rz };
    let h = ocean.wave_height_at(world);
    world.y < h
}

/// Tests whether any of the four pontoons is underwater.
fn ship_wet_at(ocean: &OceanSolver, pose: &Pose) -> (r: bool)
    requires
        ocean.wf(),
        pose.wf(),
    ensures
        r == ship_wet(ocean.waves@, ocean.time as int, *pose),
{
    pontoon_submerged(ocean, pose, -PONTOON_X, -PONTOON_Z) || pontoon_submerged(
        ocean,
        pose,
        PONTOON_X,
        -PONTOON_Z,
    ) || pontoon_submerged(ocean, pose, -PONTOON_X, PONTOON_Z) || pontoon_submerged(
        ocean,
        pose,
        PONTOON_X,
        PONTOON_Z,
    )
}

/// Thrust gained over a tick from the engine at a throttle setting.
pub open spec fn ship_thrust(ep: int, throttle: int, dt: int) -> int {
    accel_spec(ep, throttle, dt)
}

/// The ship's velocity and heading state after the movement pass: engine
/// thrust only while at least one pontoon is submerged, turning torque
/// unconditionally, gravity always.
pub open spec fn ship_move_step(
    waves: Seq<GerstnerWave>,
    time: int,
    ship: Ship,
    pose: Pose,
    v: (int, int, int),
    ang: int,
    dt: int,
) -> ((int, int, int), int) {
    let t = if ship_wet(waves, time, pose) {
        ship_thrust(ship.engine_power as int, ship.current_throttle as int, dt)
    } else {
        0
    };
    let a1 = clampi(
        ang + accel_spec(ship.turn_speed as int, ship.current_steering as int, dt),
        -(ANG_LIMIT as int),
        ANG_LIMIT as int,
    );
    let vx = clampi(
        v.0 + scale_tz_spec(t, forward_x(pose.yaw as int)),
        -(VEL_LIMIT as int),
        VEL_LIMIT as int,
    );
    let vy = clampi(
        v.1 - div_tz_spec(SHIP_GRAVITY * dt, SECOND as int),
        -(VEL_LIMIT as int),
        VEL_LIMIT as int,
    );
    let vz = clampi(
        v.2 + scale_tz_spec(t, forward_z(pose.yaw as int)),
        -(VEL_LIMIT as int),
        VEL_LIMIT as int,
    );
    ((vx, vy, vz), a1)
}

/// Movement pass: engine thrust while at least one pontoon is submerged,
/// turning torque unconditionally, gravity always; integrates position and
/// heading with the updated velocities, then retains only most of the
/// velocity (water friction).
pub fn ship_movement(ocean: &OceanSolver, ship: &Ship, pose: &mut Pose, vel: &mut ShipVelocity, dt: i64)
    requires
        ocean.wf(),
        ship.wf(),
        old(pose).wf(),
        old(vel).wf(),
        0 <= dt <= DT_LIMIT,
    ensures
        final(pose).wf(),
        final(vel).wf(),
        ({
            let (v1, a1) = ship_move_step(
                ocean.waves@,
                ocean.time as int,
                *ship,
                *old(pose),
                (old(vel).linear.x as int, old(vel).linear.y as int, old(vel).linear.z as int),
                old(vel).angular_y as int,
                dt as int,
            );
            &&& final(pose).pos.x == axis_step(old(pose).pos.x as int, v1.0, dt as int)
            &&& final(pose).pos.y == axis_step(old(pose).pos.y as int, v1.1, dt as int)
            &&& final(pose).pos.z == axis_step(old(pose).pos.z as int, v1.2, dt as int)
            &&& final(pose).yaw == yaw_step(old(pose).yaw as int, a1, dt as int)
            &&& final(vel).linear.x == scale_tz_spec(v1.0, SHIP_LINEAR_RETAIN as int)
            &&& final(vel).linear.y == scale_tz_spec(v1.1, SHIP_LINEAR_RETAIN as int)
            &&& final(vel).linear.z == scale_tz_spec(v1.2, SHIP_LINEAR_RETAIN as int)
            &&& final(vel).angular_y == scale_tz_spec(a1, SHIP_ANGULAR_RETAIN as int)
        }),
{
    let wet = ship_wet_at(ocean, pose);
    let f = yaw_forward(pose.yaw);
    let t = if wet {
        accel(ship.engine_power, ship.current_throttle, dt)
    } else {
        0
    };
    let a1 = clamp64(
        vel.angular_y + accel(ship.turn_speed, ship.current_steering, dt),
        -ANG_LIMIT,
        ANG_LIMIT,
    );
    proof {
        lemma_mul_bound(SHIP_GRAVITY as int, dt as int, 4900, 1000000);
    }
    let grav = div_tz(SHIP_GRAVITY * dt, SECOND);
    let vx = clamp64(vel.linear.x + mul_fx(t, f.0), -VEL_LIMIT, VEL_LIMIT);
    let vy = clamp64(vel.linear.y - grav, -VEL_LIMIT, VEL_LIMIT);
    let vz = clamp64(vel.linear.z + mul_fx(t, f.1), -VEL_LIMIT, VEL_LIMIT);
    pose.pos = Vec3Fx {
        x: integrate_axis(pose.pos.x, vx, dt),
        y: integrate_axis(pose.pos.y, vy, dt),
        z: integrate_axis(pose.pos.z, vz, dt),
    };
    pose.yaw = integrate_yaw(pose.yaw, a1, dt);
    vel.linear = Vec3Fx {
        x: scale_tz(vx, SHIP_LINEAR_RETAIN),
        y: scale_tz(vy, SHIP_LINEAR_RETAIN),
        z: scale_tz(vz, SHIP_LINEAR_RETAIN),
    };
    vel.angular_y = scale_tz(a1, SHIP_ANGULAR_RETAIN);
}

/// Float equilibrium law: with every pontoon submerged no deeper than
/// `depth_cap` and zero throttle, the vertical velocity stays within a fixed
/// bound across a full buoyancy-plus-movement tick — the hull neither climbs
/// without limit nor sinks indefinitely; it settles around its float level.
/// The bound is one hundred times the largest single-tick impulse (total
/// pontoon lift plus gravity), which the per-tick velocity retention damps
/// faster than the impulses can grow it.
pub proof fn lemma_ship_vertical_equilibrium(
    waves: Seq<GerstnerWave>,
    time: int,
    ship: Ship,
    pose: Pose,
    v: (int, int, int),
    ang: int,
    dt: int,
    depth_cap: int,
    bound: int,
)
    requires
        ship.wf(),
        pose.wf(),
        ship.current_throttle == 0,
        0 <= dt <= DT_LIMIT,
        1 <= depth_cap <= 30000000,
        pontoon_depth(waves, time, pose, -PONTOON_X as int, -PONTOON_Z as int) <= depth_cap,
        pontoon_depth(waves, time, pose, PONTOON_X as int, -PONTOON_Z as int) <= depth_cap,
        pontoon_depth(waves, time, pose, -PONTOON_X as int, PONTOON_Z as int) <= depth_cap,
        pontoon_depth(waves, time, pose, PONTOON_X as int, PONTOON_Z as int) <= depth_cap,
        bound == 100 * (4 * lift_cap(ship.float_force as int, dt, depth_cap) + 4900),
        absi(v.1) <= bound,
    ensures
        ({
            let vb = ship_buoyancy_step(waves, time, ship, pose, v, dt);
            let vm = ship_move_step(waves, time, ship, pose, vb, ang, dt).0;
            absi(scale_tz_spec(vm.1, SHIP_LINEAR_RETAIN as int)) <= bound
        }),
{
    let lc = lift_cap(ship.float_force as int, dt, depth_cap);
    lemma_lift_cap(waves, time, ship, pose, -PONTOON_X as int, -PONTOON_Z as int, dt, depth_cap);
    lemma_lift_cap(waves, time, ship, pose, PONTOON_X as int, -PONTOON_Z as int, dt, depth_cap);
    lemma_lift_cap(waves, time, ship, pose, -PONTOON_X as int, PONTOON_Z as int, dt, depth_cap);
    lemma_lift_cap(waves, time, ship, pose, PONTOON_X as int, PONTOON_Z as int, dt, depth_cap);
    let lift = ship_lift(waves, time, ship, pose, dt);
    let vb = ship_buoyancy_step(waves, time, ship, pose, v, dt);
    let f = if ship_wet(waves, time, pose) {
        ship_drag_factor(ship.water_drag as int, dt)
    } else {
        SCALE as int
    };
    crate::units::lemma_scale_tz_props(v.1 + lift, f);
    assert(absi(vb.1) <= bound + 4 * lc);
    // Movement: zero throttle means zero thrust; gravity then retention.
    assert(ship.engine_power as int * 0 == 0) by (nonlinear_arith);
    assert(0int * dt == 0) by (nonlinear_arith);
    assert(accel_spec(ship.engine_power as int, 0, dt) == 0);
    lemma_mul_bound(4900, dt, 4900, 1000000);
    crate::units::lemma_div_tz_props(SHIP_GRAVITY * dt, SECOND as int);
    lemma_div_is_ordered(absi(SHIP_GRAVITY * dt), 4900000000, 1000000);
    let vm1 = ship_move_step(waves, time, ship, pose, vb, ang, dt).0;
    let g = div_tz_spec(SHIP_GRAVITY * dt, SECOND as int);
    assert(absi(clampi(vb.1 - g, -(VEL_LIMIT as int), VEL_LIMIT as int)) <= bound + 4 * lc + 4900);
    crate::units::lemma_scale_tz_props(
        clampi(vb.1 - g, -(VEL_LIMIT as int), VEL_LIMIT as int),
        SHIP_LINEAR_RETAIN as int,
    );
    let m = bound + 4 * lc + 4900;
    let c = clampi(vb.1 - g, -(VEL_LIMIT as int), VEL_LIMIT as int);
    assert(absi(scale_tz_spec(c, SHIP_LINEAR_RETAIN as int)) <= bound) by {
        crate::units::lemma_div_tz_props(c * SHIP_LINEAR_RETAIN, SCALE as int);
        lemma_mul_bound(c, SHIP_LINEAR_RETAIN as int, m, 990);
        lemma_div_is_ordered(absi(c * SHIP_LINEAR_RETAIN), m * 990, 1000);
        assert(m * 990 / 1000 <= bound) by (nonlinear_arith)
            requires
                m == bound + 4 * lc + 4900,
                bound == 100 * (4 * lc + 4900),
                lc >= 0,
        ;
    };
}

/// The largest lift one pontoon can contribute in a tick at a depth cap.
pub open spec fn lift_cap(ff: int, dt: int, depth_cap: int) -> int {
    div_tz_spec(div_tz_spec(depth_cap * ff, 100000000) * dt, 1000)
}

/// Pontoon lift is nonnegative and grows at most with the depth cap.
proof fn lemma_lift_cap(
    waves: Seq<GerstnerWave>,
    time: int,
    ship: Ship,
    pose: Pose,
    ox: int,
    oz: int,
    dt: int,
    depth_cap: int,
)
    requires
        ship.wf(),
        0 <= dt <= DT_LIMIT,
        1 <= depth_cap <= 30000000,
        pontoon_depth(waves, time, pose, ox, oz) <= depth_cap,
    ensures
        0 <= pontoon_lift(
            ship.float_force as int,
            pontoon_depth(waves, time, pose, ox, oz),
            dt,
        ) <= lift_cap(ship.float_force as int, dt, depth_cap),
        lift_cap(ship.float_force as int, dt, depth_cap) >= 0,
{
    let ff = ship.float_force as int;
    let depth = pontoon_depth(waves, time, pose, ox, oz);
    assert(depth_cap * ff >= 0) by (nonlinear_arith)
        requires
            depth_cap >= 1,
            ff >= 0,
    ;
    crate::units::lemma_div_tz_props(depth_cap * ff, 100000000);
    let a_cap = div_tz_spec(depth_cap * ff, 100000000);
    assert(a_cap * dt >= 0) by (nonlinear_arith)
        requires
            a_cap >= 0,
            dt >= 0,
    ;
    crate::units::lemma_div_tz_props(a_cap * dt, 1000);
    if depth > 0 {
        assert(0 <= depth * ff <= depth_cap * ff) by (nonlinear_arith)
            requires
                0 < depth <= depth_cap,
                0 <= ff,
        ;
        crate::units::lemma_div_tz_props(depth * ff, 100000000);
        lemma_div_is_ordered(depth * ff, depth_cap * ff, 100000000);
        let a = div_tz_spec(depth * ff, 100000000);
        assert(0 <= a * dt <= a_cap * dt) by (nonlinear_arith)
            requires
                0 <= a <= a_cap,
                0 <= dt,
        ;
        crate::units::lemma_div_tz_props(a * dt, 1000);
        lemma_div_is_ordered(a * dt, a_cap * dt, 1000);
    }
}

/// The ship's full dynamics pass for one tick: buoyancy, then movement with
/// integration and retention, then the island collisions in order. Returns
/// the new position, heading, linear velocity and yaw rate.
pub open spec fn ship_tick_spec(
    waves: Seq<GerstnerWave>,
    time: int,
    ship: Ship,
    islands: Seq<IslandCollider>,
    pose: Pose,
    vel: ShipVelocity,
    dt: int,
) -> ((int, int, int), int, (int, int, int), int) {
    let vb = ship_buoyancy_step(
        waves,
        time,
        ship,
        pose,
        (vel.linear.x as int, vel.linear.y as int, vel.linear.z as int),
        dt,
    );
    let m = ship_move_step(waves, time, ship, pose, vb, vel.angular_y as int, dt);
    let v1 = m.0;
    let a1 = m.1;
    let p1 = (
        axis_step(pose.pos.x as int, v1.0, dt),
        axis_step(pose.pos.y as int, v1.1, dt),
        axis_step(pose.pos.z as int, v1.2, dt),
    );
    let yaw1 = yaw_step(pose.yaw as int, a1, dt);
    let vr = (
        scale_tz_spec(v1.0, SHIP_LINEAR_RETAIN as int),
        scale_tz_spec(v1.1, SHIP_LINEAR_RETAIN as int),
        scale_tz_spec(v1.2, SHIP_LINEAR_RETAIN as int),
    );
    let ang1 = scale_tz_spec(a1, SHIP_ANGULAR_RETAIN as int);
    let r = ship_collide_all(islands, p1, vr);
    (r.0, yaw1, r.1, ang1)
}

/// What one island does to the ship: if the ship's broad-phase circle
/// overlaps the island's, the ship is pushed radially out to the combined
/// radius (a point at the exact center goes along the positive x axis), and
/// any velocity component heading into the island is projected away.
pub open spec fn ship_collide_step(p: (int, int, int), v: (int, int, int), c: IslandCollider) -> (
    (int, int, int),
    (int, int, int),
) {
    let dx = p.0 - c.center.x;
    let dz = p.2 - c.center.z;
    let min = SHIP_COLLISION_RADIUS + c.radius;
    if dx * dx + dz * dz < min * min {
        let s = sqrt_fl_of(dx * dx + dz * dz);
        let push = radial_push(min, dx, dz, 0, s);
        let ux = if dx == 0 && dz == 0 {
            SCALE as int
        } else {
            div_tz_spec(dx * SCALE, s)
        };
        let uz = if dx == 0 && dz == 0 {
            0int
        } else {
            div_tz_spec(dz * SCALE, s)
        };
        let np = (
            clampi(p.0 + push.0, -(POS_LIMIT as int), POS_LIMIT as int),
            p.1,
            clampi(p.2 + push.2, -(POS_LIMIT as int), POS_LIMIT as int),
        );
        let into = div_tz_spec(v.0 * ux + v.2 * uz, SCALE as int);
        let nv = if into < 0 {
            (
                clampi(
                    v.0 - scale_tz_spec(into, ux),
                    -(VEL_LIMIT as int),
                    VEL_LIMIT as int,
                ),
                v.1,
                clampi(
                    v.2 - scale_tz_spec(into, uz),
                    -(VEL_LIMIT as int),
                    VEL_LIMIT as int,
                ),
            )
        } else {
            v
        };
        (np, nv)
    } else {
        (p, v)
    }
}

/// The ship's position and velocity after being resolved against every
/// island in order.
pub open spec fn ship_collide_all(
    islands: Seq<IslandCollider>,
    p: (int, int, int),
    v: (int, int, int),
) -> ((int, int, int), (int, int, int))
    decreases islands.len(),
{
    if islands.len() == 0 {
        (p, v)
    } else {
        let prev = ship_collide_all(islands.drop_last(), p, v);
        ship_collide_step(prev.0, prev.1, islands.last())
    }
}

/// Resolves the ship against one island.
fn ship_collide_one(pose: &mut Pose, vel: &mut ShipVelocity, island: &IslandCollider)
    requires
        old(pose).wf(),
        old(vel).wf(),
        island.wf(),
    ensures
        final(pose).wf(),
        final(vel).wf(),
        ({
            let r = ship_collide_step(
                (old(pose).pos.x as int, old(pose).pos.y as int, old(pose).pos.z as int),
                (old(vel).linear.x as int, old(vel).linear.y as int, old(vel).linear.z as int),
                *island,
            );
            &&& (final(pose).pos.x as int, final(pose).pos.y as int, final(pose).pos.z as int)
                == r.0
            &&& (final(vel).linear.x as int, final(vel).linear.y as int, final(vel).linear.z as int)
                == r.1
        }),
        final(pose).yaw == old(pose).yaw,
        final(vel).angular_y == old(vel).angular_y,
{
    let dx = pose.pos.x - island.center.x;
    let dz = pose.pos.z - island.center.z;
    let min = SHIP_COLLISION_RADIUS + island.radius;
    proof {
        lemma_mul_bound(dx as int, dx as int, 20000000, 20000000);
        lemma_mul_bound(dz as int, dz as int, 20000000, 20000000);
        lemma_mul_bound(min as int, min as int, 2000000, 2000000);
        assert((dx as int) * (dx as int) >= 0 && (dz as int) * (dz as int) >= 0)
            by (nonlinear_arith);
    }
    let d2 = dx * dx + dz * dz;
    if d2 < min * min {
        let s = isqrt64(d2 as u64) as i64;
        proof {
            crate::geom::lemma_sqrt_fl_unique(s as int, d2 as int);
            assert(absi(dx as int) <= s && absi(dz as int) <= s) by (nonlinear_arith)
                requires
                    (dx as int) * (dx as int) <= d2 as int,
                    (dz as int) * (dz as int) <= d2 as int,
                    d2 < ((s + 1) as int) * ((s + 1) as int),
                    s >= 0,
            ;
            assert(s < min) by (nonlinear_arith)
                requires
                    (s as int) * (s as int) <= d2 as int,
                    d2 < (min as int) * (min as int),
                    s >= 0,
                    min >= 1,
            ;
        }
        let (px, pz, ux, uz) = if dx == 0 && dz == 0 {
            proof {
                assert(is_sqrt_fl(0, 0));
                crate::geom::lemma_sqrt_fl_unique(0, 0);
            }
            (min, 0i64, SCALE, 0i64)
        } else {
            proof {
                assert(d2 >= 1) by (nonlinear_arith)
                    requires
                        d2 == (dx as int) * (dx as int) + (dz as int) * (dz as int),
                        !(dx == 0 && dz == 0),
                ;
                assert(s >= 1) by (nonlinear_arith)
                    requires
                        d2 >= 1,
                        d2 < ((s + 1) as int) * ((s + 1) as int),
                        s >= 0,
                ;
                lemma_mul_bound(dx as int, (min - s) as int, 20000000, 2000000);
                lemma_mul_bound(dz as int, (min - s) as int, 20000000, 2000000);
                lemma_mul_bound(dx as int, 1000, 2000000, 1000);
                lemma_mul_bound(dz as int, 1000, 2000000, 1000);
                crate::units::lemma_div_tz_props((dx as int) * (SCALE as int), s as int);
                crate::units::lemma_div_tz_props((dz as int) * (SCALE as int), s as int);
                lemma_mul_bound(dx as int, 1000, s as int, 1000);
                lemma_mul_bound(dz as int, 1000, s as int, 1000);
                vstd::arithmetic::div_mod::lemma_div_is_ordered(
                    absi((dx * SCALE) as int),
                    (s as int) * 1000,
                    s as int,
                );
                vstd::arithmetic::div_mod::lemma_div_is_ordered(
                    absi((dz * SCALE) as int),
                    (s as int) * 1000,
                    s as int,
                );
                vstd::arithmetic::div_mod::lemma_div_multiples_vanish(1000, s as int);
                assert((s as int) * 1000 == 1000 * (s as int)) by (nonlinear_arith);
            }
            let p = min - s;
            proof {
                assert((dx as int) * (p as int) == (p as int) * (dx as int)) by (nonlinear_arith);
                assert((dz as int) * (p as int) == (p as int) * (dz as int)) by (nonlinear_arith);
            }
            (div_away(dx * p, s), div_away(dz * p, s), div_tz(dx * SCALE, s), div_tz(dz * SCALE, s))
        };
        pose.pos = Vec3Fx {
            x: clamp64(pose.pos.x + px, -POS_LIMIT, POS_LIMIT),
            y: pose.pos.y,
            z: clamp64(pose.pos.z + pz, -POS_LIMIT, POS_LIMIT),
        };
        proof {
            lemma_mul_bound(vel.linear.x as int, ux as int, 1000000, 1000);
            lemma_mul_bound(vel.linear.z as int, uz as int, 1000000, 1000);
        }
        let into = div_tz(vel.linear.x * ux + vel.linear.z * uz, SCALE);
        if into < 0 {
            let cx = mul_fx(into, ux);
            let cz = mul_fx(into, uz);
            vel.linear = Vec3Fx {
                x: clamp64(vel.linear.x - cx, -VEL_LIMIT, VEL_LIMIT),
                y: vel.linear.y,
                z: clamp64(vel.linear.z - cz, -VEL_LIMIT, VEL_LIMIT),
            };
        }
    }
}

/// Collision pass: resolves the ship against every island collider in order,
/// pushing the hull out of each overlapping broad-phase circle and projecting
/// away the inbound velocity so the ship slides instead of sticking.
pub fn ship_island_collision(pose: &mut Pose, vel: &mut ShipVelocity, islands: &Vec<IslandCollider>)
    requires
        old(pose).wf(),
        old(vel).wf(),
        forall|i: int| 0 <= i < islands@.len() ==> #[trigger] islands@[i].wf(),
    ensures
        final(pose).wf(),
        final(vel).wf(),
        ({
            let r = ship_collide_all(
                islands@,
                (old(pose).pos.x as int, old(pose).pos.y as int, old(pose).pos.z as int),
                (old(vel).linear.x as int, old(vel).linear.y as int, old(vel).linear.z as int),
            );
            &&& (final(pose).pos.x as int, final(pose).pos.y as int, final(pose).pos.z as int)
                == r.0
            &&& (final(vel).linear.x as int, final(vel).linear.y as int, final(vel).linear.z as int)
                == r.1
        }),
        final(pose).yaw == old(pose).yaw,
        final(vel).angular_y == old(vel).angular_y,
{
    let ghost p0 = (pose.pos.x as int, pose.pos.y as int, pose.pos.z as int);
    let ghost v0 = (vel.linear.x as int, vel.linear.y as int, vel.linear.z as int);
    let n = islands.len();
    let mut i: usize = 0;
    while i < n
        invariant
            pose.wf(),
            vel.wf(),
            n == islands@.len(),
            0 <= i <= n,
            forall|j: int| 0 <= j < islands@.len() ==> #[trigger] islands@[j].wf(),
            ({
                let r = ship_collide_all(islands@.take(i as int), p0, v0);
                &&& (pose.pos.x as int, pose.pos.y as int, pose.pos.z as int) == r.0
                &&& (vel.linear.x as int, vel.linear.y as int, vel.linear.z as int) == r.1
            }),
            pose.yaw == old(pose).yaw,
            vel.angular_y == old(vel).angular_y,
            p0 == (old(pose).pos.x as int, old(pose).pos.y as int, old(pose).pos.z as int),
            v0 == (old(vel).linear.x as int, old(vel).linear.y as int, old(vel).linear.z as int),
        decreases n - i,
    {
        let island = islands[i];
        proof {
            assert(islands@[i as int].wf());
            assert(islands@.take(i + 1).drop_last() =~= islands@.take(i as int));
            assert(islands@.take(i + 1).last() == island);
        }
        ship_collide_one(pose, vel, &island);
        i = i + 1;
    }
    proof {
        assert(islands@.take(n as int) =~= islands@);
    }
}

/// Converts accumulated mouse motion into a yaw-rate impulse rather than a
/// direct rotation, so the physics integrator stays the single source of
/// orientation truth. `sensitivity` is in thousandths of an angle unit per
/// count; the resulting rate is clamped to the angular speed limit.
pub fn ship_mouse_look(vel: &mut ShipVelocity, dx: i64, sensitivity: i64, dt: i64)
    requires
        old(vel).wf(),
        absi(dx as int) <= 1000000,
        0 <= sensitivity <= 100000,
        1000 <= dt <= DT_LIMIT,
    ensures
        final(vel).wf(),
        final(vel).linear == old(vel).linear,
        final(vel).angular_y == clampi(
            old(vel).angular_y + clampi(
                -div_tz_spec(dx as int * sensitivity as int * SECOND, dt as int),
                -(ANG_LIMIT as int),
                ANG_LIMIT as int,
            ),
            -(ANG_LIMIT as int),
            ANG_LIMIT as int,
        ),
{
    proof {
        lemma_mul_bound(dx as int, sensitivity as int, 1000000, 100000);
        lemma_mul_bound((dx * sensitivity) as int, SECOND as int, 100000000000, 1000000);
        crate::units::lemma_div_tz_props((dx * sensitivity * SECOND) as int, dt as int);
    }
    let rate = clamp64(-div_tz(dx * sensitivity * SECOND, dt), -ANG_LIMIT, ANG_LIMIT);
    vel.angular_y = clamp64(vel.angular_y + rate, -ANG_LIMIT, ANG_LIMIT);
}

/// Sets the ship's control inputs, clamped to the normalized range.
pub fn ship_input(ship: &mut Ship, throttle: i64, steering: i64)
    requires
        old(ship).wf(),
    ensures
        final(ship).wf(),
        final(ship).current_throttle == clampi(throttle as int, -(SCALE as int), SCALE as int),
        final(ship).current_steering == clampi(steering as int, -(SCALE as int), SCALE as int),
        final(ship).float_force == old(ship).float_force,
        final(ship).water_drag == old(ship).water_drag,
        final(ship).engine_power == old(ship).engine_power,
        final(ship).turn_speed == old(ship).turn_speed,
{
    ship.current_throttle = clamp64(throttle, -SCALE, SCALE);
    ship.current_steering = clamp64(steering, -SCALE, SCALE);
}

} // verus!
