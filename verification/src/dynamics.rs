//! Shared rigid-body integration pieces: poses, headings, thrust staging and
//! explicit position/heading integration. Each vehicle's dynamics differ
//! deliberately (the ship floats under gravity, the submersible holds depth,
//! the character swims or walks), but they integrate with the same primitives.

use vstd::prelude::*;
use vstd::arithmetic::div_mod::{lemma_div_is_ordered, lemma_div_multiples_vanish};
use crate::geom::{isqrt64_ceil, sqrt_cl_of, Vec3Fx};
use crate::shapes::{lemma_push_bounds, penetration_spec, PlacedCollider, SHAPE_LIMIT};
use crate::trig::{cos_fx, cos_per, sin_fx, sin_per};
use crate::units::{
    absi, clamp64, clampi, div_tz, div_tz_spec, lemma_div_tz_props, lemma_mul_bound, mod_fl,
    scale_tz_spec, DT_LIMIT, POS_LIMIT, SCALE, SECOND, TURN, VEL_LIMIT,
};

verus! {

/// Largest angular speed, scaled angle units per second.
pub const ANG_LIMIT: i64 = 100000000;

/// Largest drive/turn/buoyancy tuning constant a vehicle may carry.
pub const POWER_LIMIT: i64 = 1000000000;

/// Position and heading of a vehicle. Heading is a yaw angle in `[0, TURN)`;
/// the vehicles of this world pitch and roll only visually.
#[derive(Clone, Copy, PartialEq, Eq, Structural, Debug)]
pub struct Pose {
    pub pos: Vec3Fx,
    pub yaw: i64,
}

impl Pose {
    /// Well-formed pose: bounded position, reduced yaw.
    pub open spec fn wf(self) -> bool {
        self.pos.bounded(POS_LIMIT as int) && 0 <= self.yaw < TURN
    }
}

/// Horizontal component (x) of the unit forward vector for a yaw angle.
pub open spec fn forward_x(yaw: int) -> int {
    -sin_per(yaw)
}

/// Horizontal component (z) of the unit forward vector for a yaw angle.
pub open spec fn forward_z(yaw: int) -> int {
    -cos_per(yaw)
}

/// The forward direction of a heading, fixed-point unit vector in the plane.
pub fn yaw_forward(yaw: i64) -> (f: (i64, i64))
    requires
        0 <= yaw < TURN,
    ensures
        f.0 == forward_x(yaw as int),
        f.1 == forward_z(yaw as int),
        absi(f.0 as int) <= SCALE,
        absi(f.1 as int) <= SCALE,
{
    let sx = sin_fx(yaw);
    let cz = cos_fx(yaw);
    (-sx, -cz)
}

/// Horizontal world offset (x) of a local offset rotated by a yaw angle.
pub open spec fn rot_x(yaw: int, ox: int, oz: int) -> int {
    div_tz_spec(ox * cos_per(yaw) + oz * sin_per(yaw), SCALE as int)
}

/// Horizontal world offset (z) of a local offset rotated by a yaw angle.
pub open spec fn rot_z(yaw: int, ox: int, oz: int) -> int {
    div_tz_spec(oz * cos_per(yaw) - ox * sin_per(yaw), SCALE as int)
}

/// Rotates a local horizontal offset by a yaw angle into world space.
pub fn rotate_xz(yaw: i64, ox: i64, oz: i64) -> (r: (i64, i64))
    requires
        0 <= yaw < TURN,
        absi(ox as int) <= 100000,
        absi(oz as int) <= 100000,
    ensures
        r.0 == rot_x(yaw as int, ox as int, oz as int),
        r.1 == rot_z(yaw as int, ox as int, oz as int),
        absi(r.0 as int) <= 200000,
        absi(r.1 as int) <= 200000,
{
    proof {
        lemma_mul_bound(ox as int, cos_per(yaw as int), 100000, 1000);
        lemma_mul_bound(oz as int, sin_per(yaw as int), 100000, 1000);
        lemma_mul_bound(oz as int, cos_per(yaw as int), 100000, 1000);
        lemma_mul_bound(ox as int, sin_per(yaw as int), 100000, 1000);
    }
    let cy = cos_fx(yaw);
    let sy = sin_fx(yaw);
    let rx = div_tz(ox * cy + oz * sy, SCALE);
    let rz = div_tz(oz * cy - ox * sy, SCALE);
    proof {
        lemma_div_tz_props((ox * cy + oz * sy) as int, SCALE as int);
        lemma_div_tz_props((oz * cy - ox * sy) as int, SCALE as int);
        lemma_div_is_ordered(absi((ox * cy + oz * sy) as int), 200000000, 1000);
        lemma_div_is_ordered(absi((oz * cy - ox * sy) as int), 200000000, 1000);
    }
    (rx, rz)
}

/// Scales a value by a fixed-point factor in `[-SCALE, SCALE]`, rounding
/// toward zero; never grows the magnitude.
pub fn mul_fx(v: i64, f: i64) -> (r: i64)
    requires
        absi(v as int) <= 1000000000000,
        absi(f as int) <= SCALE,
    ensures
        r == scale_tz_spec(v as int, f as int),
        absi(r as int) <= absi(v as int),
{
    proof {
        lemma_mul_bound(v as int, f as int, 1000000000000, 1000);
        lemma_mul_fx_bound(v as int, f as int);
    }
    div_tz(v * f, SCALE)
}

/// Fixed-point scaling by a factor of at most unit magnitude shrinks values.
pub proof fn lemma_mul_fx_bound(v: int, f: int)
    requires
        absi(f) <= SCALE,
    ensures
        absi(scale_tz_spec(v, f)) <= absi(v),
{
    let s = SCALE as int;
    let m = absi(v);
    lemma_div_tz_props(v * f, s);
    lemma_mul_bound(v, f, m, s);
    lemma_div_is_ordered(absi(v * f), m * s, s);
    lemma_div_multiples_vanish(m, s);
    assert(m * s == s * m) by (nonlinear_arith);
}

/// Velocity change from a drive power and a control input over a tick.
pub open spec fn accel_spec(power: int, control: int, dt: int) -> int {
    div_tz_spec(div_tz_spec(power * control, SCALE as int) * dt, SECOND as int)
}

/// Computes the velocity change from a drive power and a control input; it
/// never exceeds the power constant itself (per full-second tick).
pub fn accel(power: i64, control: i64, dt: i64) -> (r: i64)
    requires
        0 <= power <= POWER_LIMIT,
        absi(control as int) <= SCALE,
        0 <= dt <= DT_LIMIT,
    ensures
        r == accel_spec(power as int, control as int, dt as int),
        absi(r as int) <= power,
{
    proof {
        lemma_mul_bound(power as int, control as int, 1000000000, 1000);
    }
    let a = div_tz(power * control, SCALE);
    proof {
        lemma_div_tz_props((power * control) as int, SCALE as int);
        lemma_mul_bound(power as int, control as int, power as int, 1000);
        lemma_div_is_ordered(absi((power * control) as int), power * 1000, 1000);
        lemma_div_multiples_vanish(power as int, 1000);
        assert(power * 1000 == 1000 * power) by (nonlinear_arith);
        lemma_mul_bound(a as int, dt as int, 1000000000, 1000000);
        lemma_div_tz_props((a * dt) as int, SECOND as int);
        lemma_mul_bound(a as int, dt as int, power as int, 1000000);
        lemma_div_is_ordered(absi((a * dt) as int), power * 1000000, 1000000);
        lemma_div_multiples_vanish(power as int, 1000000);
        assert(power * 1000000 == 1000000 * power) by (nonlinear_arith);
    }
    div_tz(a * dt, SECOND)
}

/// One axis of position integration: advance by velocity over the tick and
/// stay inside the world bounds.
pub open spec fn axis_step(p: int, v: int, dt: int) -> int {
    clampi(p + div_tz_spec(v * dt, SECOND as int), -(POS_LIMIT as int), POS_LIMIT as int)
}

/// Integrates one position axis for a tick.
pub fn integrate_axis(p: i64, v: i64, dt: i64) -> (r: i64)
    requires
        absi(p as int) <= POS_LIMIT,
        absi(v as int) <= VEL_LIMIT,
        0 <= dt <= DT_LIMIT,
    ensures
        r == axis_step(p as int, v as int, dt as int),
        absi(r as int) <= POS_LIMIT,
{
    proof {
        lemma_mul_bound(v as int, dt as int, 1000000, 1000000);
    }
    let step = div_tz(v * dt, SECOND);
    let q = if p <= POS_LIMIT - step {
        p + step
    } else {
        POS_LIMIT
    };
    if q < -POS_LIMIT {
        -POS_LIMIT
    } else {
        q
    }
}

/// What one island shape does to a body: a positional push out of the shape
/// (grown by the body's collision margin), and a projection of the velocity
/// off the push direction so the body slides along the obstacle instead of
/// sticking.
pub open spec fn body_collide_step(
    p: (int, int, int),
    v: (int, int, int),
    c: PlacedCollider,
    margin: int,
) -> ((int, int, int), (int, int, int)) {
    let pen = penetration_spec(c.shape, p.0 - c.center.x, p.1 - c.center.y, p.2 - c.center.z, margin);
    if pen.is_some() {
        let push = pen.unwrap();
        let np = (
            clampi(p.0 + push.0, -(POS_LIMIT as int), POS_LIMIT as int),
            clampi(p.1 + push.1, -(POS_LIMIT as int), POS_LIMIT as int),
            clampi(p.2 + push.2, -(POS_LIMIT as int), POS_LIMIT as int),
        );
        let n2 = push.0 * push.0 + push.1 * push.1 + push.2 * push.2;
        if n2 == 0 {
            (np, v)
        } else {
            let cl = sqrt_cl_of(n2);
            let u = (
                div_tz_spec(push.0 * SCALE, cl),
                div_tz_spec(push.1 * SCALE, cl),
                div_tz_spec(push.2 * SCALE, cl),
            );
            let into = div_tz_spec(v.0 * u.0 + v.1 * u.1 + v.2 * u.2, SCALE as int);
            if into < 0 {
                (
                    np,
                    (
                        clampi(v.0 - scale_tz_spec(into, u.0), -(VEL_LIMIT as int), VEL_LIMIT as int),
                        clampi(v.1 - scale_tz_spec(into, u.1), -(VEL_LIMIT as int), VEL_LIMIT as int),
                        clampi(v.2 - scale_tz_spec(into, u.2), -(VEL_LIMIT as int), VEL_LIMIT as int),
                    ),
                )
            } else {
                (np, v)
            }
        }
    } else {
        (p, v)
    }
}

/// A body's position and velocity after being resolved against every island
/// shape in order.
pub open spec fn body_collide_all(
    colliders: Seq<PlacedCollider>,
    p: (int, int, int),
    v: (int, int, int),
    margin: int,
) -> ((int, int, int), (int, int, int))
    decreases colliders.len(),
{
    if colliders.len() == 0 {
        (p, v)
    } else {
        let prev = body_collide_all(colliders.drop_last(), p, v, margin);
        body_collide_step(prev.0, prev.1, colliders.last(), margin)
    }
}

/// Resolves a body against one island shape.
fn body_collide_one(pose: &mut Pose, vel: &mut Vec3Fx, c: &PlacedCollider, margin: i64)
    requires
        old(pose).wf(),
        old(vel).bounded(VEL_LIMIT as int),
        c.wf(),
        0 <= margin <= SHAPE_LIMIT,
    ensures
        final(pose).wf(),
        final(vel).bounded(VEL_LIMIT as int),
        ({
            let r = body_collide_step(
                (old(pose).pos.x as int, old(pose).pos.y as int, old(pose).pos.z as int),
                (old(vel).x as int, old(vel).y as int, old(vel).z as int),
                *c,
                margin as int,
            );
            &&& (final(pose).pos.x as int, final(pose).pos.y as int, final(pose).pos.z as int)
                == r.0
            &&& (final(vel).x as int, final(vel).y as int, final(vel).z as int) == r.1
        }),
        final(pose).yaw == old(pose).yaw,
{
    let r = c.shape.penetration(c.center, pose.pos, margin);
    match r {
        None => {
        },
        Some(push) => {
            proof {
                lemma_push_bounds(
                    c.shape,
                    pose.pos.x - c.center.x,
                    pose.pos.y - c.center.y,
                    pose.pos.z - c.center.z,
                    margin as int,
                );
                lemma_mul_bound(push.x as int, push.x as int, 2000000, 2000000);
                lemma_mul_bound(push.y as int, push.y as int, 2000000, 2000000);
                lemma_mul_bound(push.z as int, push.z as int, 2000000, 2000000);
                assert((push.x as int) * (push.x as int) >= 0 && (push.y as int) * (push.y as int)
                    >= 0 && (push.z as int) * (push.z as int) >= 0) by (nonlinear_arith);
            }
            pose.pos = Vec3Fx {
                x: clamp64(pose.pos.x + push.x, -POS_LIMIT, POS_LIMIT),
                y: clamp64(pose.pos.y + push.y, -POS_LIMIT, POS_LIMIT),
                z: clamp64(pose.pos.z + push.z, -POS_LIMIT, POS_LIMIT),
            };
            let n2 = push.x * push.x + push.y * push.y + push.z * push.z;
            if n2 != 0 {
                let cl = isqrt64_ceil(n2 as u64) as i64;
                proof {
                    assert(absi(push.x as int) <= cl && absi(push.y as int) <= cl && absi(
                        push.z as int,
                    ) <= cl) by (nonlinear_arith)
                        requires
                            (push.x as int) * (push.x as int) <= n2 as int,
                            (push.y as int) * (push.y as int) <= n2 as int,
                            (push.z as int) * (push.z as int) <= n2 as int,
                            (cl as int) * (cl as int) >= n2 as int,
                            cl >= 0,
                    ;
                    lemma_unit_div(push.x as int, cl as int);
                    lemma_unit_div(push.y as int, cl as int);
                    lemma_unit_div(push.z as int, cl as int);
                }
                let ux = div_tz(push.x * SCALE, cl);
                let uy = div_tz(push.y * SCALE, cl);
                let uz = div_tz(push.z * SCALE, cl);
                proof {
                    lemma_mul_bound(vel.x as int, ux as int, 1000000, 1000);
                    lemma_mul_bound(vel.y as int, uy as int, 1000000, 1000);
                    lemma_mul_bound(vel.z as int, uz as int, 1000000, 1000);
                }
                let into = div_tz(vel.x * ux + vel.y * uy + vel.z * uz, SCALE);
                if into < 0 {
                    proof {
                        lemma_mul_bound(into as int, ux as int, 3000000, 1000);
                        lemma_mul_bound(into as int, uy as int, 3000000, 1000);
                        lemma_mul_bound(into as int, uz as int, 3000000, 1000);
                        lemma_div_tz_props((into * ux) as int, SCALE as int);
                        lemma_div_tz_props((into * uy) as int, SCALE as int);
                        lemma_div_tz_props((into * uz) as int, SCALE as int);
                    }
                    let cx = div_tz(into * ux, SCALE);
                    let cy = div_tz(into * uy, SCALE);
                    let cz = div_tz(into * uz, SCALE);
                    *vel = Vec3Fx {
                        x: clamp64(vel.x - cx, -VEL_LIMIT, VEL_LIMIT),
                        y: clamp64(vel.y - cy, -VEL_LIMIT, VEL_LIMIT),
                        z: clamp64(vel.z - cz, -VEL_LIMIT, VEL_LIMIT),
                    };
                }
            }
        },
    }
}

/// Scaling a component of a vector by `SCALE / cl` keeps it within `SCALE`
/// when the component is at most `cl`.
proof fn lemma_unit_div(d: int, cl: int)
    requires
        1 <= cl,
        absi(d) <= cl,
    ensures
        absi(div_tz_spec(d * SCALE, cl)) <= SCALE,
{
    lemma_div_tz_props(d * SCALE, cl);
    lemma_mul_bound(d, SCALE as int, cl, 1000);
    lemma_div_is_ordered(absi(d * SCALE), cl * 1000, cl);
    lemma_div_multiples_vanish(1000, cl);
    assert(cl * 1000 == 1000 * cl) by (nonlinear_arith);
}

/// Resolves a body against every island shape in order, pushing it out of
/// each penetrated shape and projecting away the inbound velocity.
pub fn resolve_island_collisions(
    pose: &mut Pose,
    vel: &mut Vec3Fx,
    colliders: &Vec<PlacedCollider>,
    margin: i64,
)
    requires
        old(pose).wf(),
        old(vel).bounded(VEL_LIMIT as int),
        0 <= margin <= SHAPE_LIMIT,
        forall|i: int| 0 <= i < colliders@.len() ==> #[trigger] colliders@[i].wf(),
    ensures
        final(pose).wf(),
        final(vel).bounded(VEL_LIMIT as int),
        ({
            let r = body_collide_all(
                colliders@,
                (old(pose).pos.x as int, old(pose).pos.y as int, old(pose).pos.z as int),
                (old(vel).x as int, old(vel).y as int, old(vel).z as int),
                margin as int,
            );
            &&& (final(pose).pos.x as int, final(pose).pos.y as int, final(pose).pos.z as int)
                == r.0
            &&& (final(vel).x as int, final(vel).y as int, final(vel).z as int) == r.1
        }),
        final(pose).yaw == old(pose).yaw,
{
    let ghost p0 = (pose.pos.x as int, pose.pos.y as int, pose.pos.z as int);
    let ghost v0 = (vel.x as int, vel.y as int, vel.z as int);
    let n = colliders.len();
    let mut i: usize = 0;
    while i < n
        invariant
            pose.wf(),
            vel.bounded(VEL_LIMIT as int),
            n == colliders@.len(),
            0 <= i <= n,
            0 <= margin <= SHAPE_LIMIT,
            forall|j: int| 0 <= j < colliders@.len() ==> #[trigger] colliders@[j].wf(),
            ({
                let r = body_collide_all(colliders@.take(i as int), p0, v0, margin as int);
                &&& (pose.pos.x as int, pose.pos.y as int, pose.pos.z as int) == r.0
                &&& (vel.x as int, vel.y as int, vel.z as int) == r.1
            }),
            pose.yaw == old(pose).yaw,
            p0 == (old(pose).pos.x as int, old(pose).pos.y as int, old(pose).pos.z as int),
            v0 == (old(vel).x as int, old(vel).y as int, old(vel).z as int),
        decreases n - i,
    {
        let c = colliders[i];
        proof {
            assert(colliders@[i as int].wf());
            assert(colliders@.take(i + 1).drop_last() =~= colliders@.take(i as int));
            assert(colliders@.take(i + 1).last() == c);
        }
        body_collide_one(pose, vel, &c, margin);
        i = i + 1;
    }
    proof {
        assert(colliders@.take(n as int) =~= colliders@);
    }
}

/// One step of heading integration: advance by the angular velocity over the
/// tick and reduce to `[0, TURN)`.
pub open spec fn yaw_step(yaw: int, ang: int, dt: int) -> int {
    (yaw + div_tz_spec(div_tz_spec(ang * dt, SECOND as int), SCALE as int)) % (TURN as int)
}

/// Integrates the heading for a tick from a scaled angular velocity.
pub fn integrate_yaw(yaw: i64, ang: i64, dt: i64) -> (r: i64)
    requires
        0 <= yaw < TURN,
        absi(ang as int) <= ANG_LIMIT,
        0 <= dt <= DT_LIMIT,
    ensures
        r == yaw_step(yaw as int, ang as int, dt as int),
        0 <= r < TURN,
{
    proof {
        lemma_mul_bound(ang as int, dt as int, 100000000, 1000000);
    }
    let d1 = div_tz(ang * dt, SECOND);
    let d2 = div_tz(d1, SCALE);
    mod_fl(yaw + d2, TURN)
}

} // verus!
