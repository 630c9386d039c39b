//! Submersible dynamics: neutral buoyancy, thrust, vertical drive, yaw.
//!
//! The submersible holds depth when idle: velocity decays multiplicatively
//! toward zero each tick instead of being pulled by gravity. Throttle drives
//! thrust along the heading, a separate vertical input drives ascent and
//! descent, and steering sets the yaw rate directly.

use vstd::prelude::*;
use crate::dynamics::{
    accel, accel_spec, axis_step, forward_x, forward_z, integrate_axis, integrate_yaw, mul_fx,
    yaw_forward, yaw_step, Pose, ANG_LIMIT, POWER_LIMIT,
};
use crate::geom::Vec3Fx;
use crate::units::{
    absi, clamp64, clampi, div_tz, div_tz_spec, lemma_mul_bound, lemma_scale_tz_props, scale_tz,
    scale_tz_spec, DT_LIMIT, SCALE, SECOND, VEL_LIMIT,
};

verus! {

/// Velocity decay factor applied every tick while idle (fixed-point).
pub const SUB_WATER_DRAG: i64 = 950;

/// Submersible tuning constants and current control inputs.
#[derive(Clone, Copy, PartialEq, Eq, Structural, Debug)]
pub struct Submersible {
    pub drive_power: i64,
    pub turn_speed: i64,
    pub ascend_speed: i64,
    pub current_throttle: i64,
    pub current_steering: i64,
    pub current_vertical: i64,
}

impl Submersible {
    /// Well-formed: bounded tuning constants, normalized control inputs.
    pub open spec fn wf(self) -> bool {
        &&& 0 <= self.drive_power <= POWER_LIMIT
        &&& 0 <= self.turn_speed <= ANG_LIMIT
        &&& 0 <= self.ascend_speed <= POWER_LIMIT
        &&& absi(self.current_throttle as int) <= SCALE
        &&& absi(self.current_steering as int) <= SCALE
        &&& absi(self.current_vertical as int) <= SCALE
    }
}

impl Default for Submersible {
    /// The stock submersible: modest thrust, direct vertical drive, and a
    /// turn rate just over one radian per second.
    fn default() -> (s: Self)
        ensures
            s == (Submersible {
                drive_power: 15000,
                turn_speed: 764000,
                ascend_speed: 8000,
                current_throttle: 0,
                current_steering: 0,
                current_vertical: 0,
            }),
            s.wf(),
    {
        Submersible {
            drive_power: 15000,
            turn_speed: 764000,
            ascend_speed: 8000,
            current_throttle: 0,
            current_steering: 0,
            current_vertical: 0,
        }
    }
}

/// Linear velocity of the submersible, length units per second.
#[derive(Clone, Copy, PartialEq, Eq, Structural, Debug)]
pub struct SubmersibleVelocity(pub Vec3Fx);

impl SubmersibleVelocity {
    /// Well-formed: within the global velocity limit.
    pub open spec fn wf(self) -> bool {
        self.0.bounded(VEL_LIMIT as int)
    }
}

/// The submersible's velocity after one tick: thrust along the heading,
/// vertical drive, then multiplicative decay toward zero (neutral buoyancy:
/// no input means no sink and no rise), clamped to the velocity limit.
pub open spec fn sub_vel_step(sub: Submersible, yaw: int, v: (int, int, int), dt: int) -> (
    int,
    int,
    int,
) {
    let t = accel_spec(sub.drive_power as int, sub.current_throttle as int, dt);
    let vx = v.0 + scale_tz_spec(t, forward_x(yaw));
    let vy = v.1 + accel_spec(sub.ascend_speed as int, sub.current_vertical as int, dt);
    let vz = v.2 + scale_tz_spec(t, forward_z(yaw));
    (
        clampi(scale_tz_spec(vx, SUB_WATER_DRAG as int), -(VEL_LIMIT as int), VEL_LIMIT as int),
        clampi(scale_tz_spec(vy, SUB_WATER_DRAG as int), -(VEL_LIMIT as int), VEL_LIMIT as int),
        clampi(scale_tz_spec(vz, SUB_WATER_DRAG as int), -(VEL_LIMIT as int), VEL_LIMIT as int),
    )
}

/// The yaw rate the steering input commands, scaled angle units per second.
pub open spec fn sub_yaw_rate(sub: Submersible) -> int {
    scale_tz_spec(sub.turn_speed as int, sub.current_steering as int)
}

/// Advances the submersible for one tick: updates the velocity by thrust,
/// vertical drive and drag, then integrates position and heading with the new
/// velocity. Returns the yaw rate used.
pub fn submersible_movement(
    sub: &Submersible,
    pose: &mut Pose,
    vel: &mut SubmersibleVelocity,
    dt: i64,
) -> (ang: i64)
    requires
        sub.wf(),
        old(pose).wf(),
        old(vel).wf(),
        0 <= dt <= DT_LIMIT,
    ensures
        final(pose).wf(),
        final(vel).wf(),
        (final(vel).0.x as int, final(vel).0.y as int, final(vel).0.z as int) == sub_vel_step(
            *sub,
            old(pose).yaw as int,
            (old(vel).0.x as int, old(vel).0.y as int, old(vel).0.z as int),
            dt as int,
        ),
        ang == sub_yaw_rate(*sub),
        final(pose).pos.x == axis_step(old(pose).pos.x as int, final(vel).0.x as int, dt as int),
        final(pose).pos.y == axis_step(old(pose).pos.y as int, final(vel).0.y as int, dt as int),
        final(pose).pos.z == axis_step(old(pose).pos.z as int, final(vel).0.z as int, dt as int),
        final(pose).yaw == yaw_step(old(pose).yaw as int, ang as int, dt as int),
{
    let f = yaw_forward(pose.yaw);
    let t = accel(sub.drive_power, sub.current_throttle, dt);
    let ta = accel(sub.ascend_speed, sub.current_vertical, dt);
    let vx = vel.0.x + mul_fx(t, f.0);
    let vy = vel.0.y + ta;
    let vz = vel.0.z + mul_fx(t, f.1);
    let nvx = clamp64(scale_tz(vx, SUB_WATER_DRAG), -VEL_LIMIT, VEL_LIMIT);
    let nvy = clamp64(scale_tz(vy, SUB_WATER_DRAG), -VEL_LIMIT, VEL_LIMIT);
    let nvz = clamp64(scale_tz(vz, SUB_WATER_DRAG), -VEL_LIMIT, VEL_LIMIT);
    vel.0 = Vec3Fx { x: nvx, y: nvy, z: nvz };
    let ang = mul_fx(sub.turn_speed, sub.current_steering);
    pose.pos = Vec3Fx {
        x: integrate_axis(pose.pos.x, nvx, dt),
        y: integrate_axis(pose.pos.y, nvy, dt),
        z: integrate_axis(pose.pos.z, nvz, dt),
    };
    pose.yaw = integrate_yaw(pose.yaw, ang, dt);
    ang
}

/// Collision margin of the submersible's hull against island shapes.
pub const SUB_COLLISION_MARGIN: i64 = 10000;

/// Collision pass: resolves the submersible against every island shape in
/// order, pushing the hull out and projecting away the inbound velocity so
/// it slides along obstacles.
pub fn submersible_island_collision(
    pose: &mut Pose,
    vel: &mut SubmersibleVelocity,
    colliders: &Vec<crate::shapes::PlacedCollider>,
)
    requires
        old(pose).wf(),
        old(vel).wf(),
        forall|i: int| 0 <= i < colliders@.len() ==> #[trigger] colliders@[i].wf(),
    ensures
        final(pose).wf(),
        final(vel).wf(),
        ({
            let r = crate::dynamics::body_collide_all(
                colliders@,
                (old(pose).pos.x as int, old(pose).pos.y as int, old(pose).pos.z as int),
                (old(vel).0.x as int, old(vel).0.y as int, old(vel).0.z as int),
                SUB_COLLISION_MARGIN as int,
            );
            &&& (final(pose).pos.x as int, final(pose).pos.y as int, final(pose).pos.z as int)
                == r.0
            &&& (final(vel).0.x as int, final(vel).0.y as int, final(vel).0.z as int) == r.1
        }),
        final(pose).yaw == old(pose).yaw,
{
    crate::dynamics::resolve_island_collisions(pose, &mut vel.0, colliders, SUB_COLLISION_MARGIN);
}

/// The submersible's full dynamics pass for one tick: the velocity update
/// with drag, integration of position and heading, then the island
/// collisions in order. Returns the new position, heading and velocity.
pub open spec fn sub_tick_spec(
    colliders: Seq<crate::shapes::PlacedCollider>,
    sub: Submersible,
    pose: Pose,
    v: (int, int, int),
    dt: int,
) -> ((int, int, int), int, (int, int, int)) {
    let nv = sub_vel_step(sub, pose.yaw as int, v, dt);
    let p1 = (
        axis_step(pose.pos.x as int, nv.0, dt),
        axis_step(pose.pos.y as int, nv.1, dt),
        axis_step(pose.pos.z as int, nv.2, dt),
    );
    let yaw1 = yaw_step(pose.yaw as int, sub_yaw_rate(sub), dt);
    let r = crate::dynamics::body_collide_all(colliders, p1, nv, SUB_COLLISION_MARGIN as int);
    (r.0, yaw1, r.1)
}

/// Sets the submersible's control inputs, clamped to the normalized range.
pub fn submersible_input(sub: &mut Submersible, throttle: i64, steering: i64, vertical: i64)
    requires
        old(sub).wf(),
    ensures
        final(sub).wf(),
        final(sub).current_throttle == clampi(throttle as int, -(SCALE as int), SCALE as int),
        final(sub).current_steering == clampi(steering as int, -(SCALE as int), SCALE as int),
        final(sub).current_vertical == clampi(vertical as int, -(SCALE as int), SCALE as int),
        final(sub).drive_power == old(sub).drive_power,
        final(sub).turn_speed == old(sub).turn_speed,
        final(sub).ascend_speed == old(sub).ascend_speed,
{
    sub.current_throttle = clamp64(throttle, -SCALE, SCALE);
    sub.current_steering = clamp64(steering, -SCALE, SCALE);
    sub.current_vertical = clamp64(vertical, -SCALE, SCALE);
}

/// Converts accumulated mouse motion into an extra yaw rate for this tick,
/// matching the ship's convention of steering through the integrator rather
/// than rotating directly. `sensitivity` is in thousandths of an angle unit
/// per count; the rate is clamped to the angular speed limit.
pub fn submersible_mouse_look(dx: i64, sensitivity: i64, dt: i64) -> (ang: i64)
    requires
        absi(dx as int) <= 1000000,
        0 <= sensitivity <= 100000,
        1000 <= dt <= crate::units::DT_LIMIT,
    ensures
        ang == clampi(
            -div_tz_spec(dx as int * sensitivity as int * SECOND, dt as int),
            -(ANG_LIMIT as int),
            ANG_LIMIT as int,
        ),
        absi(ang as int) <= ANG_LIMIT,
{
    proof {
        lemma_mul_bound(dx as int, sensitivity as int, 1000000, 100000);
        lemma_mul_bound(
            (dx * sensitivity) as int,
            SECOND as int,
            100000000000,
            1000000,
        );
        crate::units::lemma_div_tz_props(
            (dx * sensitivity * SECOND) as int,
            dt as int,
        );
    }
    let rate = div_tz(dx * sensitivity * SECOND, dt);
    clamp64(-rate, -ANG_LIMIT, ANG_LIMIT)
}

/// Idle-drag law: with zero throttle and zero vertical input, one tick never
/// grows any velocity component, and while the velocity is nonzero its total
/// magnitude strictly decreases — the submersible coasts to a stop and never
/// speeds up on its own.
pub proof fn lemma_submersible_idle_decay(sub: Submersible, yaw: int, v: (int, int, int), dt: int)
    requires
        sub.wf(),
        sub.current_throttle == 0,
        sub.current_vertical == 0,
        absi(v.0) <= VEL_LIMIT,
        absi(v.1) <= VEL_LIMIT,
        absi(v.2) <= VEL_LIMIT,
        0 <= dt <= DT_LIMIT,
    ensures
        absi(sub_vel_step(sub, yaw, v, dt).0) <= absi(v.0),
        absi(sub_vel_step(sub, yaw, v, dt).1) <= absi(v.1),
        absi(sub_vel_step(sub, yaw, v, dt).2) <= absi(v.2),
        !(v.0 == 0 && v.1 == 0 && v.2 == 0) ==> absi(sub_vel_step(sub, yaw, v, dt).0) + absi(
            sub_vel_step(sub, yaw, v, dt).1,
        ) + absi(sub_vel_step(sub, yaw, v, dt).2) < absi(v.0) + absi(v.1) + absi(v.2),
{
    assert(sub.drive_power as int * 0 == 0) by (nonlinear_arith);
    assert(sub.ascend_speed as int * 0 == 0) by (nonlinear_arith);
    assert(0int * dt == 0) by (nonlinear_arith);
    assert(0int * forward_x(yaw) == 0) by (nonlinear_arith);
    assert(0int * forward_z(yaw) == 0) by (nonlinear_arith);
    assert(accel_spec(sub.drive_power as int, 0, dt) == 0);
    assert(accel_spec(sub.ascend_speed as int, 0, dt) == 0);
    assert(scale_tz_spec(0, forward_x(yaw)) == 0);
    assert(scale_tz_spec(0, forward_z(yaw)) == 0);
    lemma_scale_tz_props(v.0, SUB_WATER_DRAG as int);
    lemma_scale_tz_props(v.1, SUB_WATER_DRAG as int);
    lemma_scale_tz_props(v.2, SUB_WATER_DRAG as int);
}

} // verus!
