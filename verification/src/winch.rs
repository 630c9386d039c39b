//! Winch and tether: the cable between ship and submersible.
//!
//! The cable is a maximum-distance constraint between a fixed anchor on the
//! ship and one on the submersible; the ship is the length reference and the
//! submersible is the body pulled back. Reeling changes the cable length
//! linearly over time, clamped to its limits. Reeling an attached artifact
//! all the way in delivers it to the inventory exactly once.

use vstd::prelude::*;
use crate::dynamics::{rot_x, rot_z, rotate_xz, Pose};
use crate::geom::{isqrt64_ceil, sqrt_cl_of, Vec3Fx};
use crate::units::{
    absi, clamp64, clampi, div_tz, div_tz_spec, lemma_div_tz_props, lemma_mul_bound, DT_LIMIT,
    POS_LIMIT, SECOND,
};

verus! {

/// Longest cable length, length units: the submersible's leash.
pub const MAX_CABLE_LENGTH: i64 = 100000;

/// Shortest cable length, length units: the reel stops here.
pub const MIN_CABLE_LENGTH: i64 = 5000;

/// Reel speed, length units per second.
pub const REEL_SPEED: i64 = 8000;

/// A cable reeled to within this of the minimum counts as fully reeled in.
pub const DELIVERY_EPSILON: i64 = 500;

/// Winch attachment on the ship, local space: stern, above deck.
pub const SHIP_ANCHOR_Y: i64 = 600;

/// Fore/aft coordinate of the ship anchor.
pub const SHIP_ANCHOR_Z: i64 = 2500;

/// Winch attachment on the submersible, local space: top center.
pub const SUB_ANCHOR_Y: i64 = 2500;

/// The winch: a single scalar cable length, always within its limits.
#[derive(Clone, Copy, PartialEq, Eq, Structural, Debug)]
pub struct WinchState {
    pub cable_length: i64,
}

impl WinchState {
    /// Well-formed: the length stays within the reel limits.
    pub open spec fn wf(self) -> bool {
        MIN_CABLE_LENGTH <= self.cable_length <= MAX_CABLE_LENGTH
    }
}

impl Default for WinchState {
    /// The cable starts fully paid out.
    fn default() -> (s: Self)
        ensures
            s == (WinchState { cable_length: MAX_CABLE_LENGTH }),
            s.wf(),
    {
        WinchState { cable_length: MAX_CABLE_LENGTH }
    }
}

/// A collectible artifact in the world.
#[derive(Clone, PartialEq, Eq, Debug)]
pub struct Artifact {
    pub item_id: String,
}

/// The player's collected item identifiers.
#[derive(PartialEq, Eq, Debug)]
pub struct Inventory {
    pub items: Vec<String>,
}

/// The artifact currently attached to the winch, if any, as an index into
/// the world's artifact list. Cleared on delivery.
#[derive(Clone, Copy, PartialEq, Eq, Structural, Debug)]
pub struct AttachedArtifact(pub Option<usize>);

/// The cable length after one tick of reel input: reel-in and reel-out move
/// it linearly and it never leaves `[MIN_CABLE_LENGTH, MAX_CABLE_LENGTH]`.
pub open spec fn reel_step(len: int, reel_in: bool, reel_out: bool, dt: int) -> int {
    let delta = div_tz_spec(REEL_SPEED * dt, SECOND as int);
    if reel_in && !reel_out {
        clampi(len - delta, MIN_CABLE_LENGTH as int, MAX_CABLE_LENGTH as int)
    } else if reel_out && !reel_in {
        clampi(len + delta, MIN_CABLE_LENGTH as int, MAX_CABLE_LENGTH as int)
    } else {
        len
    }
}

/// Adjusts the cable length from reel input. However long the input is held,
/// the length never leaves its limits.
pub fn winch_controls(winch: &mut WinchState, reel_in: bool, reel_out: bool, dt: i64)
    requires
        old(winch).wf(),
        0 <= dt <= DT_LIMIT,
    ensures
        final(winch).wf(),
        final(winch).cable_length == reel_step(
            old(winch).cable_length as int,
            reel_in,
            reel_out,
            dt as int,
        ),
{
    proof {
        lemma_mul_bound(REEL_SPEED as int, dt as int, 8000, 1000000);
        lemma_div_tz_props((REEL_SPEED * dt) as int, SECOND as int);
    }
    let delta = div_tz(REEL_SPEED * dt, SECOND);
    if reel_in && !reel_out {
        winch.cable_length = clamp64(
            winch.cable_length - delta,
            MIN_CABLE_LENGTH,
            MAX_CABLE_LENGTH,
        );
    } else if reel_out && !reel_in {
        winch.cable_length = clamp64(
            winch.cable_length + delta,
            MIN_CABLE_LENGTH,
            MAX_CABLE_LENGTH,
        );
    }
}

/// Whether the delivery condition holds: an artifact is attached, it still
/// exists among the world's `n` artifacts, and the cable is reeled to within
/// the epsilon of the minimum.
pub open spec fn delivery_due(cable: int, attached: Option<usize>, n: int) -> bool {
    attached.is_some() && attached.unwrap() < n && cable <= MIN_CABLE_LENGTH + DELIVERY_EPSILON
}

/// The attachment after a delivery pass: cleared exactly when delivery
/// fires. An attachment whose artifact is gone is left as it is — missing
/// collaborator state makes the pass a no-op, never a fault.
pub open spec fn deliver_step(cable: int, attached: Option<usize>, n: int) -> (Option<usize>, bool) {
    if delivery_due(cable, attached, n) {
        (None, true)
    } else {
        (attached, false)
    }
}

/// Delivery fires at most once per attachment: once a pass has fired, no
/// later pass fires again until something re-attaches, whatever the cable
/// or the artifact list does in between.
pub proof fn lemma_delivery_fires_once(
    cable1: int,
    cable2: int,
    attached: Option<usize>,
    n1: int,
    n2: int,
)
    ensures
        deliver_step(cable1, attached, n1).1 ==> !deliver_step(
            cable2,
            deliver_step(cable1, attached, n1).0,
            n2,
        ).1,
{
}

/// Delivery pass: when an artifact hangs on the winch and the cable is fully
/// reeled in, the artifact leaves the world, its identifier joins the
/// inventory, and the attachment clears — all atomically, so the event fires
/// exactly once per qualifying reel-in. An attachment pointing at an
/// artifact that no longer exists makes the pass a no-op for the tick
/// (missing collaborator state is tolerated, never a fault). Returns
/// whether delivery fired.
pub fn deliver_attached_artifact(
    winch: &WinchState,
    attached: &mut AttachedArtifact,
    artifacts: &mut Vec<Artifact>,
    inventory: &mut Inventory,
) -> (delivered: bool)
    requires
        winch.wf(),
    ensures
        delivered == delivery_due(
            winch.cable_length as int,
            old(attached).0,
            old(artifacts)@.len() as int,
        ),
        (final(attached).0, delivered) == deliver_step(
            winch.cable_length as int,
            old(attached).0,
            old(artifacts)@.len() as int,
        ),
        delivered ==> {
            let i = old(attached).0.unwrap() as int;
            &&& final(artifacts)@ == old(artifacts)@.remove(i)
            &&& final(inventory).items@ == old(inventory).items@.push(old(artifacts)@[i].item_id)
        },
        !delivered ==> final(artifacts)@ == old(artifacts)@ && final(inventory).items@ == old(
            inventory,
        ).items@,
{
    if winch.cable_length > MIN_CABLE_LENGTH + DELIVERY_EPSILON {
        return false;
    }
    match attached.0 {
        None => false,
        Some(i) => {
            if i >= artifacts.len() {
                return false;
            }
            let artifact = artifacts.remove(i);
            inventory.items.push(artifact.item_id);
            attached.0 = None;
            true
        },
    }
}

/// The world position of the ship's winch anchor.
pub open spec fn ship_anchor_spec(pose: Pose) -> (int, int, int) {
    (
        pose.pos.x + rot_x(pose.yaw as int, 0, SHIP_ANCHOR_Z as int),
        pose.pos.y + SHIP_ANCHOR_Y,
        pose.pos.z + rot_z(pose.yaw as int, 0, SHIP_ANCHOR_Z as int),
    )
}

/// The world position of the submersible's winch anchor.
pub open spec fn sub_anchor_spec(pose: Pose) -> (int, int, int) {
    (pose.pos.x as int, pose.pos.y + SUB_ANCHOR_Y, pose.pos.z as int)
}

/// The visual cable: the segment from the ship anchor to the submersible
/// anchor, pure derived state.
pub fn update_cable_visual(ship: &Pose, sub: &Pose) -> (seg: (Vec3Fx, Vec3Fx))
    requires
        ship.wf(),
        sub.wf(),
    ensures
        (seg.0.x as int, seg.0.y as int, seg.0.z as int) == ship_anchor_spec(*ship),
        (seg.1.x as int, seg.1.y as int, seg.1.z as int) == sub_anchor_spec(*sub),
{
    let (ax, az) = rotate_xz(ship.yaw, 0, SHIP_ANCHOR_Z);
    (
        Vec3Fx { x: ship.pos.x + ax, y: ship.pos.y + SHIP_ANCHOR_Y, z: ship.pos.z + az },
        Vec3Fx { x: sub.pos.x, y: sub.pos.y + SUB_ANCHOR_Y, z: sub.pos.z },
    )
}

/// Where the cable constraint puts the submersible: unchanged while the
/// anchors are within the cable length, otherwise pulled straight back along
/// the cable to at most the cable length (up to the world border, where
/// positions are clamped). The ship is the length reference and never moves.
pub open spec fn cable_pull_spec(
    cable: int,
    ship_pos: (int, int, int),
    ship_yaw: int,
    sub_pos: (int, int, int),
) -> (int, int, int) {
    let from = (
        ship_pos.0 + rot_x(ship_yaw, 0, SHIP_ANCHOR_Z as int),
        ship_pos.1 + SHIP_ANCHOR_Y,
        ship_pos.2 + rot_z(ship_yaw, 0, SHIP_ANCHOR_Z as int),
    );
    let dx = sub_pos.0 - from.0;
    let dy = sub_pos.1 + SUB_ANCHOR_Y - from.1;
    let dz = sub_pos.2 - from.2;
    if dx * dx + dy * dy + dz * dz <= cable * cable {
        sub_pos
    } else {
        let cl = sqrt_cl_of(dx * dx + dy * dy + dz * dz);
        let nx = div_tz_spec(dx * cable, cl);
        let ny = div_tz_spec(dy * cable, cl);
        let nz = div_tz_spec(dz * cable, cl);
        (
            clampi(from.0 + nx, -(POS_LIMIT as int), POS_LIMIT as int),
            clampi(from.1 + ny - SUB_ANCHOR_Y, -(POS_LIMIT as int), POS_LIMIT as int),
            clampi(from.2 + nz, -(POS_LIMIT as int), POS_LIMIT as int),
        )
    }
}

/// Distance-constraint pass: moves the submersible exactly where
/// `cable_pull_spec` says, and when the cable was taut the pulled-back
/// offset's length is again at most the cable length.
pub fn update_winch_joint_length(winch: &WinchState, ship: &Pose, sub: &mut Pose)
    requires
        winch.wf(),
        ship.wf(),
        old(sub).wf(),
    ensures
        final(sub).wf(),
        final(sub).yaw == old(sub).yaw,
        (final(sub).pos.x as int, final(sub).pos.y as int, final(sub).pos.z as int)
            == cable_pull_spec(
            winch.cable_length as int,
            (ship.pos.x as int, ship.pos.y as int, ship.pos.z as int),
            ship.yaw as int,
            (old(sub).pos.x as int, old(sub).pos.y as int, old(sub).pos.z as int),
        ),
        ({
            let from = ship_anchor_spec(*ship);
            let to = sub_anchor_spec(*old(sub));
            let dx = to.0 - from.0;
            let dy = to.1 - from.1;
            let dz = to.2 - from.2;
            let l = winch.cable_length as int;
            dx * dx + dy * dy + dz * dz > l * l ==> {
                let cl = sqrt_cl_of(dx * dx + dy * dy + dz * dz);
                let nx = div_tz_spec(dx * l, cl);
                let ny = div_tz_spec(dy * l, cl);
                let nz = div_tz_spec(dz * l, cl);
                nx * nx + ny * ny + nz * nz <= l * l
            }
        }),
{
    let (ax, az) = rotate_xz(ship.yaw, 0, SHIP_ANCHOR_Z);
    let fx = ship.pos.x + ax;
    let fy = ship.pos.y + SHIP_ANCHOR_Y;
    let fz = ship.pos.z + az;
    let dx = sub.pos.x - fx;
    let dy = sub.pos.y + SUB_ANCHOR_Y - fy;
    let dz = sub.pos.z - fz;
    proof {
        lemma_mul_bound(dx as int, dx as int, 21000000, 21000000);
        lemma_mul_bound(dy as int, dy as int, 21000000, 21000000);
        lemma_mul_bound(dz as int, dz as int, 21000000, 21000000);
        lemma_mul_bound(winch.cable_length as int, winch.cable_length as int, 100000, 100000);
        assert((dx as int) * (dx as int) >= 0 && (dy as int) * (dy as int) >= 0 && (dz as int) * (
        dz as int) >= 0) by (nonlinear_arith);
    }
    let d2 = dx * dx + dy * dy + dz * dz;
    let l = winch.cable_length;
    if d2 > l * l {
        let cl = isqrt64_ceil(d2 as u64) as i64;
        proof {
            assert(cl >= 1 && absi(dx as int) <= cl && absi(dy as int) <= cl && absi(dz as int)
                <= cl) by (nonlinear_arith)
                requires
                    (dx as int) * (dx as int) <= d2 as int,
                    (dy as int) * (dy as int) <= d2 as int,
                    (dz as int) * (dz as int) <= d2 as int,
                    (cl as int) * (cl as int) >= d2 as int,
                    cl >= 0,
                    d2 >= 1,
            ;
            lemma_mul_bound(dx as int, l as int, 21000000, 100000);
            lemma_mul_bound(dy as int, l as int, 21000000, 100000);
            lemma_mul_bound(dz as int, l as int, 21000000, 100000);
        }
        let nx = div_tz(dx * l, cl);
        let ny = div_tz(dy * l, cl);
        let nz = div_tz(dz * l, cl);
        proof {
            lemma_pull_in(dx as int, dy as int, dz as int, l as int, cl as int, d2 as int);
            lemma_div_tz_props((dx * l) as int, cl as int);
            lemma_div_tz_props((dy * l) as int, cl as int);
            lemma_div_tz_props((dz * l) as int, cl as int);
        }
        sub.pos = Vec3Fx {
            x: clamp64(fx + nx, -POS_LIMIT, POS_LIMIT),
            y: clamp64(fy + ny - SUB_ANCHOR_Y, -POS_LIMIT, POS_LIMIT),
            z: clamp64(fz + nz, -POS_LIMIT, POS_LIMIT),
        };
    }
}

/// Scaling an offset down by `l / cl` with `cl` at least the offset's length
/// leaves a vector no longer than `l`.
proof fn lemma_pull_in(dx: int, dy: int, dz: int, l: int, cl: int, d2: int)
    requires
        1 <= l,
        1 <= cl,
        d2 == dx * dx + dy * dy + dz * dz,
        d2 <= cl * cl,
    ensures
        ({
            let nx = div_tz_spec(dx * l, cl);
            let ny = div_tz_spec(dy * l, cl);
            let nz = div_tz_spec(dz * l, cl);
            nx * nx + ny * ny + nz * nz <= l * l
        }),
{
    let nx = div_tz_spec(dx * l, cl);
    let ny = div_tz_spec(dy * l, cl);
    let nz = div_tz_spec(dz * l, cl);
    lemma_axis_shrink(dx, l, cl);
    lemma_axis_shrink(dy, l, cl);
    lemma_axis_shrink(dz, l, cl);
    assert((nx * cl) * (nx * cl) == (nx * nx) * (cl * cl)) by (nonlinear_arith);
    assert((ny * cl) * (ny * cl) == (ny * ny) * (cl * cl)) by (nonlinear_arith);
    assert((nz * cl) * (nz * cl) == (nz * nz) * (cl * cl)) by (nonlinear_arith);
    assert((dx * l) * (dx * l) == (dx * dx) * (l * l)) by (nonlinear_arith);
    assert((dy * l) * (dy * l) == (dy * dy) * (l * l)) by (nonlinear_arith);
    assert((dz * l) * (dz * l) == (dz * dz) * (l * l)) by (nonlinear_arith);
    assert((nx * nx + ny * ny + nz * nz) * (cl * cl) == (nx * nx) * (cl * cl) + (ny * ny) * (cl
        * cl) + (nz * nz) * (cl * cl)) by (nonlinear_arith);
    assert((l * l) * (dx * dx + dy * dy + dz * dz) == (dx * dx) * (l * l) + (dy * dy) * (l * l) + (
    dz * dz) * (l * l)) by (nonlinear_arith);
    assert(nx * nx + ny * ny + nz * nz <= l * l) by (nonlinear_arith)
        requires
            (nx * nx + ny * ny + nz * nz) * (cl * cl) <= (l * l) * (dx * dx + dy * dy + dz * dz),
            dx * dx + dy * dy + dz * dz <= cl * cl,
            cl >= 1,
            l >= 1,
    ;
}

/// One axis of the pull: the scaled component, squared, does not exceed the
/// original component scaled by the cable length.
proof fn lemma_axis_shrink(d: int, l: int, cl: int)
    requires
        1 <= l,
        1 <= cl,
    ensures
        ({
            let n = div_tz_spec(d * l, cl);
            (n * cl) * (n * cl) <= (d * l) * (d * l)
        }),
{
    let n = div_tz_spec(d * l, cl);
    lemma_div_tz_props(d * l, cl);
    assert(absi(n) * cl <= absi(d * l)) by {
        vstd::arithmetic::div_mod::lemma_fundamental_div_mod(absi(d * l), cl);
        assert(absi(n) == absi(d * l) / cl);
        assert((absi(d * l) / cl) * cl <= absi(d * l)) by (nonlinear_arith)
            requires
                absi(d * l) == cl * (absi(d * l) / cl) + absi(d * l) % cl,
                0 <= absi(d * l) % cl,
        ;
    };
    assert((n * cl) * (n * cl) <= (d * l) * (d * l)) by (nonlinear_arith)
        requires
            absi(n) * cl <= absi(d * l),
            cl >= 1,
            absi(n) == if n < 0 {
                -n
            } else {
                n
            },
            absi(d * l) == if d * l < 0 {
                -(d * l)
            } else {
                d * l
            },
    ;
}

} // verus!
