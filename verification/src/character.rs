//! Character locomotion and survival.
//!
//! Two movement regimes are selected by a submersion test against the wave
//! height with a surface-exit margin (hysteresis, so climbing out does not
//! flicker between modes). Walking applies gravity, jump impulses and ground
//! drag; swimming applies a depth-dependent sink rate (slower near the
//! surface, so the swimmer can tread water), water drag, and clamped
//! ascend/descend controls. A hard floor clamp keeps the character above the
//! seafloor, and island collisions push the character out and project the
//! velocity so it slides along obstacles.

use vstd::prelude::*;
use crate::dynamics::{
    axis_step, body_collide_all, integrate_axis, resolve_island_collisions, rot_x, rot_z,
    rotate_xz, Pose,
};
use crate::geom::Vec3Fx;
use crate::ocean::{height_spec, GerstnerWave, OceanSolver};
use crate::oxygen::{
    depth_multiplier, oxygen_drain, oxygen_drain_step, oxygen_refill, oxygen_refill_step,
    CharacterOxygen, PRESSURE_DRAIN_MULTIPLIER,
};
use crate::shapes::PlacedCollider;
use crate::units::{
    absi, clamp64, clampi, div_tz, div_tz_spec, lemma_div_tz_props, lemma_mul_bound, mod_fl,
    mod_fl_spec, scale_tz, scale_tz_spec, DT_LIMIT, MAP_FLOOR_Y, POS_LIMIT, SCALE, SEA_LEVEL,
    SECOND, TURN, VEL_LIMIT,
};

verus! {

/// Horizontal swim speed, length units per second.
pub const SWIM_SPEED: i64 = 2500;

/// Upward swim drive, length units per second squared.
pub const SWIM_ASCEND_SPEED: i64 = 4000;

/// Downward swim drive, length units per second squared.
pub const SWIM_DESCEND_SPEED: i64 = 2000;

/// Water drag while swimming, per second (fixed-point).
pub const SWIM_DRAG: i64 = 4000;

/// The character stays in swim mode until this far above the surface.
pub const SURFACE_EXIT_MARGIN: i64 = 600;

/// Within this band below the surface the sink rate is gentle (treading).
pub const NEAR_SURFACE_BAND: i64 = 300;

/// Sink acceleration near the surface, length units per second squared.
pub const SINK_NEAR_SURFACE: i64 = 300;

/// Sink acceleration at depth, length units per second squared.
pub const SINK_DEEP: i64 = 1800;

/// Per-tick horizontal velocity retention when walking with no input.
pub const WALK_RETAIN: i64 = 900;

/// Gravity on land, length units per second squared.
pub const CHAR_GRAVITY: i64 = 9800;

/// Fixed-point length of each diagonal component of a normalized input.
pub const DIAG: i64 = 707;

/// Collision margin of the character against island shapes.
pub const CHAR_MARGIN: i64 = 400;

/// The player character's tuning constants.
#[derive(Clone, Copy, PartialEq, Eq, Structural, Debug)]
pub struct MarineCharacter {
    pub walk_speed: i64,
    pub jump_velocity: i64,
}

impl MarineCharacter {
    /// Well-formed: nonnegative bounded speeds.
    pub open spec fn wf(self) -> bool {
        0 <= self.walk_speed <= VEL_LIMIT && 0 <= self.jump_velocity <= VEL_LIMIT
    }
}

impl Default for MarineCharacter {
    /// The stock swimmer: a four-unit walk and a six-unit jump.
    fn default() -> (s: Self)
        ensures
            s == (MarineCharacter { walk_speed: 4000, jump_velocity: 6000 }),
            s.wf(),
    {
        MarineCharacter { walk_speed: 4000, jump_velocity: 6000 }
    }
}

/// The character's linear velocity.
#[derive(Clone, Copy, PartialEq, Eq, Structural, Debug)]
pub struct CharacterVelocity(pub Vec3Fx);

impl CharacterVelocity {
    /// Well-formed: within the global velocity limit.
    pub open spec fn wf(self) -> bool {
        self.0.bounded(VEL_LIMIT as int)
    }
}

/// Normalized movement input for one tick.
#[derive(Clone, Copy, PartialEq, Eq, Structural, Debug)]
pub struct MoveInput {
    pub move_x: i64,
    pub move_z: i64,
    pub jump: bool,
    pub ascend: bool,
    pub descend: bool,
}

impl MoveInput {
    /// Well-formed: each axis is -1, 0 or 1.
    pub open spec fn wf(self) -> bool {
        -1 <= self.move_x <= 1 && -1 <= self.move_z <= 1
    }
}

/// The local input direction at (close to) unit length: diagonal input uses
/// the diagonal component so its length matches a single-axis press.
pub open spec fn input_dir(ix: int, iz: int) -> (int, int) {
    if ix != 0 && iz != 0 {
        (ix * DIAG, iz * DIAG)
    } else {
        (ix * SCALE, iz * SCALE)
    }
}

/// Water drag retention factor while swimming, for one tick.
pub open spec fn swim_retain(dt: int) -> int {
    clampi(SCALE - div_tz_spec(SWIM_DRAG * dt, SECOND as int), 0, SCALE as int)
}

/// The character's velocity after one tick of movement control, before
/// integration and collision. `underwater` and `near_surface` come from the
/// submersion test at the start-of-tick position.
pub open spec fn char_vel_step(
    ch: MarineCharacter,
    yaw: int,
    v: (int, int, int),
    underwater: bool,
    near_surface: bool,
    input: MoveInput,
    dt: int,
) -> (int, int, int) {
    let dir = input_dir(input.move_x as int, input.move_z as int);
    let wx = rot_x(yaw, dir.0, dir.1);
    let wz = rot_z(yaw, dir.0, dir.1);
    let has_input = input.move_x != 0 || input.move_z != 0;
    if underwater {
        let sink = if near_surface {
            SINK_NEAR_SURFACE as int
        } else {
            SINK_DEEP as int
        };
        let vy1 = scale_tz_spec(v.1 - div_tz_spec(sink * dt, SECOND as int), swim_retain(dt));
        let vy2 = vy1 + if input.ascend {
            div_tz_spec(SWIM_ASCEND_SPEED * dt, SECOND as int)
        } else {
            0
        } - if input.descend {
            div_tz_spec(SWIM_DESCEND_SPEED * dt, SECOND as int)
        } else {
            0
        };
        let vy = clampi(vy2, -2 * SWIM_DESCEND_SPEED, 2 * SWIM_ASCEND_SPEED);
        if has_input {
            (
                clampi(scale_tz_spec(SWIM_SPEED as int, wx), -(VEL_LIMIT as int), VEL_LIMIT as int),
                vy,
                clampi(scale_tz_spec(SWIM_SPEED as int, wz), -(VEL_LIMIT as int), VEL_LIMIT as int),
            )
        } else {
            (
                scale_tz_spec(v.0, swim_retain(dt)),
                vy,
                scale_tz_spec(v.2, swim_retain(dt)),
            )
        }
    } else {
        let vy = if input.jump {
            ch.jump_velocity as int
        } else {
            clampi(
                v.1 - div_tz_spec(CHAR_GRAVITY * dt, SECOND as int),
                -(VEL_LIMIT as int),
                VEL_LIMIT as int,
            )
        };
        if has_input {
            (
                clampi(
                    scale_tz_spec(ch.walk_speed as int, wx),
                    -(VEL_LIMIT as int),
                    VEL_LIMIT as int,
                ),
                vy,
                clampi(
                    scale_tz_spec(ch.walk_speed as int, wz),
                    -(VEL_LIMIT as int),
                    VEL_LIMIT as int,
                ),
            )
        } else {
            (scale_tz_spec(v.0, WALK_RETAIN as int), vy, scale_tz_spec(v.2, WALK_RETAIN as int))
        }
    }
}

/// Vertical integration with the hard floor clamp: the character never sinks
/// below the seafloor, and hitting it zeroes the vertical velocity.
pub open spec fn floor_step(py: int, vy: int, dt: int) -> (int, int) {
    let ny = py + div_tz_spec(vy * dt, SECOND as int);
    if ny < MAP_FLOOR_Y {
        (MAP_FLOOR_Y as int, 0)
    } else {
        (clampi(ny, -(POS_LIMIT as int), POS_LIMIT as int), vy)
    }
}

/// The character's position and velocity after one full movement pass: the
/// regime picked by the submersion test at the start-of-tick position, the
/// velocity update, integration with the floor clamp, then the island
/// collisions in order.
pub open spec fn char_move_spec(
    waves: Seq<GerstnerWave>,
    time: int,
    ch: MarineCharacter,
    colliders: Seq<PlacedCollider>,
    pose: Pose,
    v: (int, int, int),
    input: MoveInput,
    dt: int,
) -> ((int, int, int), (int, int, int)) {
    let h = height_spec(waves, time, pose.pos.x as int, pose.pos.z as int);
    let underwater = pose.pos.y < h + SURFACE_EXIT_MARGIN;
    let near_surface = pose.pos.y > h - NEAR_SURFACE_BAND;
    let v1 = char_vel_step(ch, pose.yaw as int, v, underwater, near_surface, input, dt);
    let px = axis_step(pose.pos.x as int, v1.0, dt);
    let pz = axis_step(pose.pos.z as int, v1.2, dt);
    let fy = floor_step(pose.pos.y as int, v1.1, dt);
    body_collide_all(colliders, (px, fy.0, pz), (v1.0, fy.1, v1.2), CHAR_MARGIN as int)
}

/// One tick of character movement: pick the swim or walk regime by the
/// submersion test with its hysteresis margin, update the velocity, integrate
/// with the floor clamp, then resolve island collisions in order.
pub fn character_movement(
    ch: &MarineCharacter,
    ocean: &OceanSolver,
    colliders: &Vec<PlacedCollider>,
    pose: &mut Pose,
    vel: &mut CharacterVelocity,
    input: MoveInput,
    dt: i64,
)
    requires
        ch.wf(),
        ocean.wf(),
        old(pose).wf(),
        old(vel).wf(),
        input.wf(),
        0 <= dt <= DT_LIMIT,
        forall|i: int| 0 <= i < colliders@.len() ==> #[trigger] colliders@[i].wf(),
    ensures
        final(pose).wf(),
        final(vel).wf(),
        ({
            let r = char_move_spec(
                ocean.waves@,
                ocean.time as int,
                *ch,
                colliders@,
                *old(pose),
                (old(vel).0.x as int, old(vel).0.y as int, old(vel).0.z as int),
                input,
                dt as int,
            );
            &&& (final(pose).pos.x as int, final(pose).pos.y as int, final(pose).pos.z as int)
                == r.0
            &&& (final(vel).0.x as int, final(vel).0.y as int, final(vel).0.z as int) == r.1
        }),
        final(pose).yaw == old(pose).yaw,
{
    let h = ocean.wave_height_at(pose.pos);
    let underwater = pose.pos.y < h + SURFACE_EXIT_MARGIN;
    let near_surface = pose.pos.y > h - NEAR_SURFACE_BAND;
    let has_input = input.move_x != 0 || input.move_z != 0;
    let k = if input.move_x != 0 && input.move_z != 0 {
        DIAG
    } else {
        SCALE
    };
    let ox = if input.move_x > 0 {
        k
    } else if input.move_x < 0 {
        -k
    } else {
        0
    };
    let oz = if input.move_z > 0 {
        k
    } else if input.move_z < 0 {
        -k
    } else {
        0
    };
    proof {
        assert(ox as int == input.move_x as int * (k as int) && oz as int == input.move_z as int
            * (k as int)) by (nonlinear_arith)
            requires
                -1 <= input.move_x <= 1,
                -1 <= input.move_z <= 1,
                ox == (if input.move_x > 0 {
                    k
                } else if input.move_x < 0 {
                    (-k) as i64
                } else {
                    0
                }),
                oz == (if input.move_z > 0 {
                    k
                } else if input.move_z < 0 {
                    (-k) as i64
                } else {
                    0
                }),
                0 < k <= 1000,
        ;
    }
    let (wx, wz) = rotate_xz(pose.yaw, ox, oz);
    let (vx, vy, vz): (i64, i64, i64) = if underwater {
        let sink = if near_surface {
            SINK_NEAR_SURFACE
        } else {
            SINK_DEEP
        };
        proof {
            lemma_mul_bound(sink as int, dt as int, 1800, 1000000);
            lemma_mul_bound(SWIM_DRAG as int, dt as int, 4000, 1000000);
        }
        let retain = clamp64(SCALE - div_tz(SWIM_DRAG * dt, SECOND), 0, SCALE);
        let vy1 = scale_tz(vel.0.y - div_tz(sink * dt, SECOND), retain);
        let up = if input.ascend {
            proof {
                lemma_mul_bound(SWIM_ASCEND_SPEED as int, dt as int, 4000, 1000000);
            }
            div_tz(SWIM_ASCEND_SPEED * dt, SECOND)
        } else {
            0
        };
        let down = if input.descend {
            proof {
                lemma_mul_bound(SWIM_DESCEND_SPEED as int, dt as int, 2000, 1000000);
            }
            div_tz(SWIM_DESCEND_SPEED * dt, SECOND)
        } else {
            0
        };
        proof {
            lemma_div_tz_props((SWIM_ASCEND_SPEED * dt) as int, SECOND as int);
            lemma_div_tz_props((SWIM_DESCEND_SPEED * dt) as int, SECOND as int);
        }
        let vy = clamp64(vy1 + up - down, -2 * SWIM_DESCEND_SPEED, 2 * SWIM_ASCEND_SPEED);
        if has_input {
            proof {
                lemma_mul_bound(SWIM_SPEED as int, wx as int, 2500, 200000);
                lemma_mul_bound(SWIM_SPEED as int, wz as int, 2500, 200000);
            }
            let sx = clamp64(div_tz(SWIM_SPEED * wx, SCALE), -VEL_LIMIT, VEL_LIMIT);
            let sz = clamp64(div_tz(SWIM_SPEED * wz, SCALE), -VEL_LIMIT, VEL_LIMIT);
            (sx, vy, sz)
        } else {
            (scale_tz(vel.0.x, retain), vy, scale_tz(vel.0.z, retain))
        }
    } else {
        let vy = if input.jump {
            ch.jump_velocity
        } else {
            proof {
                lemma_mul_bound(CHAR_GRAVITY as int, dt as int, 9800, 1000000);
            }
            clamp64(vel.0.y - div_tz(CHAR_GRAVITY * dt, SECOND), -VEL_LIMIT, VEL_LIMIT)
        };
        if has_input {
            proof {
                lemma_mul_bound(ch.walk_speed as int, wx as int, 1000000, 200000);
                lemma_mul_bound(ch.walk_speed as int, wz as int, 1000000, 200000);
            }
            let sx = clamp64(div_tz(ch.walk_speed * wx, SCALE), -VEL_LIMIT, VEL_LIMIT);
            let sz = clamp64(div_tz(ch.walk_speed * wz, SCALE), -VEL_LIMIT, VEL_LIMIT);
            (sx, vy, sz)
        } else {
            (scale_tz(vel.0.x, WALK_RETAIN), vy, scale_tz(vel.0.z, WALK_RETAIN))
        }
    };
    let px = integrate_axis(pose.pos.x, vx, dt);
    let pz = integrate_axis(pose.pos.z, vz, dt);
    proof {
        lemma_mul_bound(vy as int, dt as int, 1000000, 1000000);
        lemma_div_tz_props((vy * dt) as int, SECOND as int);
    }
    let dy = div_tz(vy * dt, SECOND);
    let (py, vy2): (i64, i64) = if pose.pos.y + dy < MAP_FLOOR_Y {
        (MAP_FLOOR_Y, 0)
    } else {
        (clamp64(pose.pos.y + dy, -POS_LIMIT, POS_LIMIT), vy)
    };
    pose.pos = Vec3Fx { x: px, y: py, z: pz };
    vel.0 = Vec3Fx { x: vx, y: vy2, z: vz };
    resolve_island_collisions(pose, &mut vel.0, colliders, CHAR_MARGIN);
}

/// The camera pitch never quite reaches straight up or down.
pub const PITCH_LIMIT: i64 = 993;

/// Horizontal (yaw) and vertical (pitch) look angles, angle units.
#[derive(Clone, Copy, PartialEq, Eq, Structural, Debug)]
pub struct CharacterLook {
    pub yaw: i64,
    pub pitch: i64,
}

impl CharacterLook {
    /// Well-formed: reduced yaw, pitch clear of the poles.
    pub open spec fn wf(self) -> bool {
        0 <= self.yaw < TURN && absi(self.pitch as int) <= PITCH_LIMIT
    }
}

/// Applies accumulated mouse motion to the look angles: yaw wraps, pitch is
/// clamped short of straight up and straight down. `sensitivity` is in
/// thousandths of an angle unit per count.
pub fn character_mouse_look(look: &mut CharacterLook, dx: i64, dy: i64, sensitivity: i64)
    requires
        old(look).wf(),
        absi(dx as int) <= 1000000,
        absi(dy as int) <= 1000000,
        0 <= sensitivity <= 100000,
    ensures
        final(look).wf(),
        final(look).yaw == mod_fl_spec(
            old(look).yaw - scale_tz_spec(dx as int, sensitivity as int),
            TURN as int,
        ),
        final(look).pitch == clampi(
            old(look).pitch - scale_tz_spec(dy as int, sensitivity as int),
            -(PITCH_LIMIT as int),
            PITCH_LIMIT as int,
        ),
{
    proof {
        lemma_mul_bound(dx as int, sensitivity as int, 1000000, 100000);
        lemma_mul_bound(dy as int, sensitivity as int, 1000000, 100000);
        lemma_div_tz_props((dx * sensitivity) as int, SCALE as int);
        lemma_div_tz_props((dy * sensitivity) as int, SCALE as int);
    }
    let sx = div_tz(dx * sensitivity, SCALE);
    let sy = div_tz(dy * sensitivity, SCALE);
    look.yaw = mod_fl(look.yaw - sx, TURN);
    look.pitch = clamp64(look.pitch - sy, -PITCH_LIMIT, PITCH_LIMIT);
}

/// The character respawn position: the ship's deck near the safe island.
pub const RESPAWN_X: i64 = -40000;

/// Height of the deck at the respawn point.
pub const RESPAWN_Y: i64 = 500;

/// The respawn point's z coordinate.
pub const RESPAWN_Z: i64 = 28666;

/// Where a drowned character reappears: on the ship deck at the safe island.
pub fn character_respawn_position() -> (p: Vec3Fx)
    ensures
        p == (Vec3Fx { x: RESPAWN_X, y: RESPAWN_Y, z: RESPAWN_Z }),
        p.bounded(POS_LIMIT as int),
{
    Vec3Fx { x: RESPAWN_X, y: RESPAWN_Y, z: RESPAWN_Z }
}

/// The character's oxygen pool after one tick at a given position, and
/// whether the drowning event fires: submerged (with the hysteresis margin)
/// it drains, faster past the pressure depth; surfaced it refills.
pub open spec fn char_oxygen_step(
    waves: Seq<GerstnerWave>,
    time: int,
    p: (int, int, int),
    oxy: CharacterOxygen,
    dt: int,
) -> (CharacterOxygen, bool) {
    let h = height_spec(waves, time, p.0, p.2);
    if p.1 < h + SURFACE_EXIT_MARGIN {
        oxygen_drain_step(oxy, depth_multiplier(SEA_LEVEL - p.1), dt)
    } else {
        (oxygen_refill_step(oxy, dt), false)
    }
}

/// One tick of the character's oxygen: drain while submerged (faster past the
/// pressure depth), refill at the surface; on depletion, teleport to the safe
/// respawn point with zero velocity and a full pool, exactly once.
pub fn character_oxygen(
    ocean: &OceanSolver,
    pose: &mut Pose,
    oxygen: &mut CharacterOxygen,
    vel: &mut CharacterVelocity,
    dt: i64,
) -> (drowned: bool)
    requires
        ocean.wf(),
        old(pose).wf(),
        old(oxygen).wf(),
        old(vel).wf(),
        0 <= dt <= DT_LIMIT,
    ensures
        final(pose).wf(),
        final(oxygen).wf(),
        final(vel).wf(),
        ({
            let o = char_oxygen_step(
                ocean.waves@,
                ocean.time as int,
                (old(pose).pos.x as int, old(pose).pos.y as int, old(pose).pos.z as int),
                *old(oxygen),
                dt as int,
            );
            &&& (*final(oxygen), drowned) == o
            &&& drowned ==> final(pose).pos == (Vec3Fx {
                x: RESPAWN_X,
                y: RESPAWN_Y,
                z: RESPAWN_Z,
            }) && final(vel).0 == (Vec3Fx { x: 0, y: 0, z: 0 })
            &&& !drowned ==> *final(pose) == *old(pose) && *final(vel) == *old(vel)
        }),
        final(pose).yaw == old(pose).yaw,
{
    let h = ocean.wave_height_at(pose.pos);
    let underwater = pose.pos.y < h + SURFACE_EXIT_MARGIN;
    if underwater {
        let depth = SEA_LEVEL - pose.pos.y;
        let mult = if depth > crate::oxygen::PRESSURE_DEPTH_THRESHOLD {
            PRESSURE_DRAIN_MULTIPLIER
        } else {
            1
        };
        let drowned = oxygen_drain(oxygen, mult, dt);
        if drowned {
            pose.pos = character_respawn_position();
            vel.0 = Vec3Fx { x: 0, y: 0, z: 0 };
        }
        drowned
    } else {
        oxygen_refill(oxygen, dt);
        false
    }
}

} // verus!
