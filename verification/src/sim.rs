//! The top-level simulation state and the fixed-timestep tick.
//!
//! All shared state lives in one struct passed explicitly to each system;
//! the tick runs the systems to completion in a fixed, dependency-respecting
//! order: clock advance first (so every reader sees the post-advance time),
//! then controllers, dynamics, collision against the just-moved transforms,
//! oxygen on the final transforms, and the winch last.

use vstd::prelude::*;
use crate::character::{
    char_move_spec, char_oxygen_step, character_movement, character_oxygen, CharacterVelocity,
    MarineCharacter, MoveInput, RESPAWN_X, RESPAWN_Y, RESPAWN_Z,
};
use crate::dynamics::Pose;
use crate::interaction::InteractKind;
use crate::ocean::OceanSolver;
use crate::oxygen::{diving_bell_oxygen, CharacterOxygen, DivingBell};
use crate::shapes::PlacedCollider;
use crate::ship::{
    ship_buoyancy, ship_input, ship_island_collision, ship_movement, ship_tick_spec,
    IslandCollider, Ship, ShipVelocity,
};
use crate::submersible::{
    sub_tick_spec, submersible_input, submersible_island_collision, submersible_movement,
    Submersible, SubmersibleVelocity,
};
use crate::units::{absi, clampi, DT_LIMIT, SCALE, TIME_LIMIT};
use crate::winch::{
    cable_pull_spec, deliver_attached_artifact, deliver_step, reel_step,
    update_winch_joint_length, winch_controls, Artifact, AttachedArtifact, Inventory, WinchState,
};

verus! {

/// Which control scheme receives input: on foot, in the ship, or in the
/// submersible.
#[derive(Clone, Copy, PartialEq, Eq, Structural, Debug)]
pub struct PlayerMode {
    pub in_boat: bool,
    pub in_submersible: bool,
}

impl PlayerMode {
    /// Well-formed: the player occupies at most one vehicle.
    pub open spec fn wf(self) -> bool {
        !(self.in_boat && self.in_submersible)
    }

    /// Whether the player sits in any vehicle.
    pub fn in_vehicle(&self) -> (r: bool)
        ensures
            r == (self.in_boat || self.in_submersible),
    {
        self.in_boat || self.in_submersible
    }
}

impl Default for PlayerMode {
    /// The session starts on foot.
    fn default() -> (s: Self)
        ensures
            s == (PlayerMode { in_boat: false, in_submersible: false }),
            s.wf(),
    {
        PlayerMode { in_boat: false, in_submersible: false }
    }
}

/// One tick's worth of normalized player input.
#[derive(Clone, Copy, PartialEq, Eq, Structural, Debug)]
pub struct TickInput {
    pub throttle: i64,
    pub steering: i64,
    pub vertical: i64,
    pub movement: MoveInput,
    pub reel_in: bool,
    pub reel_out: bool,
}

impl TickInput {
    /// Well-formed: normalized axes.
    pub open spec fn wf(self) -> bool {
        &&& absi(self.throttle as int) <= SCALE
        &&& absi(self.steering as int) <= SCALE
        &&& absi(self.vertical as int) <= SCALE
        &&& self.movement.wf()
    }
}

/// The ship as the controller phase leaves it: in the boat, throttle and
/// steering copy the clamped input; otherwise the controls are untouched.
pub open spec fn routed_ship(ship: Ship, in_boat: bool, input: TickInput) -> Ship {
    if in_boat {
        Ship {
            current_throttle: clampi(input.throttle as int, -(SCALE as int), SCALE as int) as i64,
            current_steering: clampi(input.steering as int, -(SCALE as int), SCALE as int) as i64,
            ..ship
        }
    } else {
        ship
    }
}

/// The submersible as the controller phase leaves it.
pub open spec fn routed_sub(sub: Submersible, in_sub: bool, input: TickInput) -> Submersible {
    if in_sub {
        Submersible {
            current_throttle: clampi(input.throttle as int, -(SCALE as int), SCALE as int) as i64,
            current_steering: clampi(input.steering as int, -(SCALE as int), SCALE as int) as i64,
            current_vertical: clampi(input.vertical as int, -(SCALE as int), SCALE as int) as i64,
            ..sub
        }
    } else {
        sub
    }
}

/// The cable length as the controller phase leaves it: reel input acts only
/// from the boat.
pub open spec fn routed_cable(len: int, in_boat: bool, input: TickInput, dt: int) -> int {
    if in_boat {
        reel_step(len, input.reel_in, input.reel_out, dt)
    } else {
        len
    }
}

/// The whole simulation: ocean, three vehicles, survival state, the winch,
/// and the static world the scene collaborator supplied.
pub struct SimState {
    pub ocean: OceanSolver,
    pub ship: Ship,
    pub ship_pose: Pose,
    pub ship_vel: ShipVelocity,
    pub sub: Submersible,
    pub sub_pose: Pose,
    pub sub_vel: SubmersibleVelocity,
    pub character: MarineCharacter,
    pub char_pose: Pose,
    pub char_vel: CharacterVelocity,
    pub char_oxygen: CharacterOxygen,
    pub bell: DivingBell,
    pub winch: WinchState,
    pub attached: AttachedArtifact,
    pub artifacts: Vec<Artifact>,
    pub inventory: Inventory,
    pub islands: Vec<IslandCollider>,
    pub colliders: Vec<PlacedCollider>,
    pub mode: PlayerMode,
}

impl SimState {
    /// Well-formed simulation: every component well-formed, and the winch
    /// attachment points at a live artifact.
    pub open spec fn wf(self) -> bool {
        &&& self.ocean.wf()
        &&& self.ship.wf()
        &&& self.ship_pose.wf()
        &&& self.ship_vel.wf()
        &&& self.sub.wf()
        &&& self.sub_pose.wf()
        &&& self.sub_vel.wf()
        &&& self.character.wf()
        &&& self.char_pose.wf()
        &&& self.char_vel.wf()
        &&& self.char_oxygen.wf()
        &&& self.bell.wf()
        &&& self.winch.wf()
        &&& (self.attached.0.is_some() ==> self.attached.0.unwrap() < self.artifacts@.len())
        &&& (forall|i: int| 0 <= i < self.islands@.len() ==> #[trigger] self.islands@[i].wf())
        &&& (forall|i: int|
            0 <= i < self.colliders@.len() ==> #[trigger] self.colliders@[i].wf())
        &&& self.mode.wf()
    }

    /// One fixed-timestep tick, in order: clock, controllers (routed to the
    /// active control scheme), ship and submersible dynamics, character
    /// locomotion with island collision, oxygen on the settled transforms,
    /// then the winch: reel input, cable constraint, delivery. Returns
    /// whether the character drowned (and so respawned) this tick.
    #[verifier::rlimit(100)]
    #[verifier::spinoff_prover]
    pub fn tick(&mut self, input: TickInput, dt: i64) -> (drowned: bool)
        requires
            old(self).wf(),
            input.wf(),
            0 <= dt <= DT_LIMIT,
        ensures
            final(self).wf(),
            final(self).ocean.time == clampi(
                old(self).ocean.time + dt,
                0,
                TIME_LIMIT as int,
            ),
            final(self).ocean.waves == old(self).ocean.waves,
            final(self).mode == old(self).mode,
            final(self).islands == old(self).islands,
            final(self).colliders == old(self).colliders,
            final(self).character == old(self).character,
            final(self).ship == routed_ship(old(self).ship, old(self).mode.in_boat, input),
            final(self).sub == routed_sub(
                old(self).sub,
                old(self).mode.in_submersible,
                input,
            ),
            final(self).winch.cable_length == routed_cable(
                old(self).winch.cable_length as int,
                old(self).mode.in_boat,
                input,
                dt as int,
            ),
            (old(self).mode.in_boat || old(self).mode.in_submersible) ==> final(self).char_pose
                == old(self).char_pose && final(self).char_vel == old(self).char_vel
                && final(self).char_oxygen == old(self).char_oxygen && !drowned,
            final(self).char_pose.yaw == old(self).char_pose.yaw,
            ({
                let waves = old(self).ocean.waves@;
                let t1 = clampi(old(self).ocean.time + dt, 0, TIME_LIMIT as int);
                let ship1 = routed_ship(old(self).ship, old(self).mode.in_boat, input);
                let sub1 = routed_sub(old(self).sub, old(self).mode.in_submersible, input);
                let cable1 = routed_cable(
                    old(self).winch.cable_length as int,
                    old(self).mode.in_boat,
                    input,
                    dt as int,
                );
                let s = ship_tick_spec(
                    waves,
                    t1,
                    ship1,
                    old(self).islands@,
                    old(self).ship_pose,
                    old(self).ship_vel,
                    dt as int,
                );
                let b = sub_tick_spec(
                    old(self).colliders@,
                    sub1,
                    old(self).sub_pose,
                    (
                        old(self).sub_vel.0.x as int,
                        old(self).sub_vel.0.y as int,
                        old(self).sub_vel.0.z as int,
                    ),
                    dt as int,
                );
                &&& (
                    final(self).ship_pose.pos.x as int,
                    final(self).ship_pose.pos.y as int,
                    final(self).ship_pose.pos.z as int,
                ) == s.0
                &&& final(self).ship_pose.yaw == s.1
                &&& (
                    final(self).ship_vel.linear.x as int,
                    final(self).ship_vel.linear.y as int,
                    final(self).ship_vel.linear.z as int,
                ) == s.2
                &&& final(self).ship_vel.angular_y == s.3
                &&& (
                    final(self).sub_pose.pos.x as int,
                    final(self).sub_pose.pos.y as int,
                    final(self).sub_pose.pos.z as int,
                ) == cable_pull_spec(cable1, s.0, s.1, b.0)
                &&& final(self).sub_pose.yaw == b.1
                &&& (
                    final(self).sub_vel.0.x as int,
                    final(self).sub_vel.0.y as int,
                    final(self).sub_vel.0.z as int,
                ) == b.2
                &&& final(self).bell == crate::oxygen::bell_step(
                    old(self).bell,
                    b.0.1 < crate::ocean::height_spec(waves, t1, b.0.0, b.0.2),
                    dt as int,
                )
                &&& ({
                    let del = deliver_step(
                        cable1,
                        old(self).attached.0,
                        old(self).artifacts@.len() as int,
                    );
                    &&& final(self).attached.0 == del.0
                    &&& del.1 ==> final(self).artifacts@ == old(self).artifacts@.remove(
                        old(self).attached.0.unwrap() as int,
                    ) && final(self).inventory.items@ == old(self).inventory.items@.push(
                        old(self).artifacts@[old(self).attached.0.unwrap() as int].item_id,
                    )
                    &&& !del.1 ==> final(self).artifacts@ == old(self).artifacts@
                        && final(self).inventory.items@ == old(self).inventory.items@
                })
                &&& !(old(self).mode.in_boat || old(self).mode.in_submersible) ==> ({
                    let m = char_move_spec(
                        waves,
                        t1,
                        old(self).character,
                        old(self).colliders@,
                        old(self).char_pose,
                        (
                            old(self).char_vel.0.x as int,
                            old(self).char_vel.0.y as int,
                            old(self).char_vel.0.z as int,
                        ),
                        input.movement,
                        dt as int,
                    );
                    let o = char_oxygen_step(waves, t1, m.0, old(self).char_oxygen, dt as int);
                    &&& final(self).char_oxygen == o.0
                    &&& drowned == o.1
                    &&& drowned ==> (
                        final(self).char_pose.pos.x as int,
                        final(self).char_pose.pos.y as int,
                        final(self).char_pose.pos.z as int,
                    ) == (RESPAWN_X as int, RESPAWN_Y as int, RESPAWN_Z as int) && (
                        final(self).char_vel.0.x as int,
                        final(self).char_vel.0.y as int,
                        final(self).char_vel.0.z as int,
                    ) == (0int, 0int, 0int)
                    &&& !drowned ==> (
                        final(self).char_pose.pos.x as int,
                        final(self).char_pose.pos.y as int,
                        final(self).char_pose.pos.z as int,
                    ) == m.0 && (
                        final(self).char_vel.0.x as int,
                        final(self).char_vel.0.y as int,
                        final(self).char_vel.0.z as int,
                    ) == m.1
                })
            }),
    {
        // Clock first: every later reader sees this tick's time.
        self.ocean.advance_time(dt);
        // Controllers: route input to the active control scheme only.
        if self.mode.in_boat {
            ship_input(&mut self.ship, input.throttle, input.steering);
            winch_controls(&mut self.winch, input.reel_in, input.reel_out, dt);
        } else if self.mode.in_submersible {
            submersible_input(&mut self.sub, input.throttle, input.steering, input.vertical);
        }
        self.tick_vehicles(dt);
        // Character locomotion and survival, only on foot.
        let mut drowned = false;
        if !self.mode.in_boat && !self.mode.in_submersible {
            drowned = self.tick_character(input.movement, dt);
        }
        self.tick_bell_and_winch(dt);
        drowned
    }

    /// Dynamics phase: ship buoyancy, movement and island collision, then
    /// submersible movement, against this tick's transforms.
    fn tick_vehicles(&mut self, dt: i64)
        requires
            old(self).wf(),
            0 <= dt <= DT_LIMIT,
        ensures
            final(self).wf(),
            final(self).ocean == old(self).ocean,
            final(self).ship == old(self).ship,
            final(self).sub == old(self).sub,
            final(self).character == old(self).character,
            final(self).char_pose == old(self).char_pose,
            final(self).char_vel == old(self).char_vel,
            final(self).char_oxygen == old(self).char_oxygen,
            final(self).bell == old(self).bell,
            final(self).winch == old(self).winch,
            final(self).attached == old(self).attached,
            final(self).artifacts == old(self).artifacts,
            final(self).inventory.items@ == old(self).inventory.items@,
            final(self).islands == old(self).islands,
            final(self).colliders == old(self).colliders,
            final(self).mode == old(self).mode,
            ({
                let s = ship_tick_spec(
                    old(self).ocean.waves@,
                    old(self).ocean.time as int,
                    old(self).ship,
                    old(self).islands@,
                    old(self).ship_pose,
                    old(self).ship_vel,
                    dt as int,
                );
                &&& (
                    final(self).ship_pose.pos.x as int,
                    final(self).ship_pose.pos.y as int,
                    final(self).ship_pose.pos.z as int,
                ) == s.0
                &&& final(self).ship_pose.yaw == s.1
                &&& (
                    final(self).ship_vel.linear.x as int,
                    final(self).ship_vel.linear.y as int,
                    final(self).ship_vel.linear.z as int,
                ) == s.2
                &&& final(self).ship_vel.angular_y == s.3
            }),
            ({
                let b = sub_tick_spec(
                    old(self).colliders@,
                    old(self).sub,
                    old(self).sub_pose,
                    (
                        old(self).sub_vel.0.x as int,
                        old(self).sub_vel.0.y as int,
                        old(self).sub_vel.0.z as int,
                    ),
                    dt as int,
                );
                &&& (
                    final(self).sub_pose.pos.x as int,
                    final(self).sub_pose.pos.y as int,
                    final(self).sub_pose.pos.z as int,
                ) == b.0
                &&& final(self).sub_pose.yaw == b.1
                &&& (
                    final(self).sub_vel.0.x as int,
                    final(self).sub_vel.0.y as int,
                    final(self).sub_vel.0.z as int,
                ) == b.2
            }),
    {
        ship_buoyancy(&self.ocean, &self.ship, &self.ship_pose, &mut self.ship_vel, dt);
        ship_movement(&self.ocean, &self.ship, &mut self.ship_pose, &mut self.ship_vel, dt);
        ship_island_collision(&mut self.ship_pose, &mut self.ship_vel, &self.islands);
        submersible_movement(&self.sub, &mut self.sub_pose, &mut self.sub_vel, dt);
        submersible_island_collision(&mut self.sub_pose, &mut self.sub_vel, &self.colliders);
    }

    /// Character phase: locomotion with island collision, then oxygen with
    /// its possible respawn. Returns whether the character drowned.
    fn tick_character(&mut self, movement: MoveInput, dt: i64) -> (drowned: bool)
        requires
            old(self).wf(),
            movement.wf(),
            0 <= dt <= DT_LIMIT,
        ensures
            final(self).wf(),
            final(self).ocean == old(self).ocean,
            final(self).ship == old(self).ship,
            final(self).ship_pose == old(self).ship_pose,
            final(self).ship_vel == old(self).ship_vel,
            final(self).sub == old(self).sub,
            final(self).sub_pose == old(self).sub_pose,
            final(self).sub_vel == old(self).sub_vel,
            final(self).character == old(self).character,
            final(self).bell == old(self).bell,
            final(self).winch == old(self).winch,
            final(self).attached == old(self).attached,
            final(self).artifacts == old(self).artifacts,
            final(self).inventory.items@ == old(self).inventory.items@,
            final(self).islands == old(self).islands,
            final(self).colliders == old(self).colliders,
            final(self).mode == old(self).mode,
            final(self).char_pose.yaw == old(self).char_pose.yaw,
            ({
                let m = char_move_spec(
                    old(self).ocean.waves@,
                    old(self).ocean.time as int,
                    old(self).character,
                    old(self).colliders@,
                    old(self).char_pose,
                    (
                        old(self).char_vel.0.x as int,
                        old(self).char_vel.0.y as int,
                        old(self).char_vel.0.z as int,
                    ),
                    movement,
                    dt as int,
                );
                let o = char_oxygen_step(
                    old(self).ocean.waves@,
                    old(self).ocean.time as int,
                    m.0,
                    old(self).char_oxygen,
                    dt as int,
                );
                &&& final(self).char_oxygen == o.0
                &&& drowned == o.1
                &&& drowned ==> (
                    final(self).char_pose.pos.x as int,
                    final(self).char_pose.pos.y as int,
                    final(self).char_pose.pos.z as int,
                ) == (RESPAWN_X as int, RESPAWN_Y as int, RESPAWN_Z as int) && (
                    final(self).char_vel.0.x as int,
                    final(self).char_vel.0.y as int,
                    final(self).char_vel.0.z as int,
                ) == (0int, 0int, 0int)
                &&& !drowned ==> (
                    final(self).char_pose.pos.x as int,
                    final(self).char_pose.pos.y as int,
                    final(self).char_pose.pos.z as int,
                ) == m.0 && (
                    final(self).char_vel.0.x as int,
                    final(self).char_vel.0.y as int,
                    final(self).char_vel.0.z as int,
                ) == m.1
            }),
    {
        character_movement(
            &self.character,
            &self.ocean,
            &self.colliders,
            &mut self.char_pose,
            &mut self.char_vel,
            movement,
            dt,
        );
        character_oxygen(&self.ocean, &mut self.char_pose, &mut self.char_oxygen, &mut self.char_vel, dt)
    }

    /// Survival and winch phase: the diving bell drains while its hull is
    /// below the waves; then the cable constraint pulls the submersible back
    /// and a fully reeled-in artifact is delivered.
    fn tick_bell_and_winch(&mut self, dt: i64)
        requires
            old(self).wf(),
            0 <= dt <= DT_LIMIT,
        ensures
            final(self).wf(),
            final(self).ocean == old(self).ocean,
            final(self).ship == old(self).ship,
            final(self).ship_pose == old(self).ship_pose,
            final(self).ship_vel == old(self).ship_vel,
            final(self).sub == old(self).sub,
            final(self).sub_vel == old(self).sub_vel,
            final(self).character == old(self).character,
            final(self).char_pose == old(self).char_pose,
            final(self).char_vel == old(self).char_vel,
            final(self).char_oxygen == old(self).char_oxygen,
            final(self).winch == old(self).winch,
            final(self).islands == old(self).islands,
            final(self).colliders == old(self).colliders,
            final(self).mode == old(self).mode,
            final(self).sub_pose.yaw == old(self).sub_pose.yaw,
            final(self).bell == crate::oxygen::bell_step(
                old(self).bell,
                old(self).sub_pose.pos.y < crate::ocean::height_spec(
                    old(self).ocean.waves@,
                    old(self).ocean.time as int,
                    old(self).sub_pose.pos.x as int,
                    old(self).sub_pose.pos.z as int,
                ),
                dt as int,
            ),
            (
                final(self).sub_pose.pos.x as int,
                final(self).sub_pose.pos.y as int,
                final(self).sub_pose.pos.z as int,
            ) == cable_pull_spec(
                old(self).winch.cable_length as int,
                (
                    old(self).ship_pose.pos.x as int,
                    old(self).ship_pose.pos.y as int,
                    old(self).ship_pose.pos.z as int,
                ),
                old(self).ship_pose.yaw as int,
                (
                    old(self).sub_pose.pos.x as int,
                    old(self).sub_pose.pos.y as int,
                    old(self).sub_pose.pos.z as int,
                ),
            ),
            ({
                let del = deliver_step(
                    old(self).winch.cable_length as int,
                    old(self).attached.0,
                    old(self).artifacts@.len() as int,
                );
                &&& final(self).attached.0 == del.0
                &&& del.1 ==> final(self).artifacts@ == old(self).artifacts@.remove(
                    old(self).attached.0.unwrap() as int,
                ) && final(self).inventory.items@ == old(self).inventory.items@.push(
                    old(self).artifacts@[old(self).attached.0.unwrap() as int].item_id,
                )
                &&& !del.1 ==> final(self).artifacts@ == old(self).artifacts@
                    && final(self).inventory.items@ == old(self).inventory.items@
            }),
    {
        let bell_h = self.ocean.wave_height_at(self.sub_pose.pos);
        diving_bell_oxygen(&mut self.bell, self.sub_pose.pos.y < bell_h, dt);
        update_winch_joint_length(&self.winch, &self.ship_pose, &mut self.sub_pose);
        deliver_attached_artifact(
            &self.winch,
            &mut self.attached,
            &mut self.artifacts,
            &mut self.inventory,
        );
    }
}

/// Acts on an interact press: in a vehicle the player climbs out;
/// otherwise the nearest interactable decides — board the ship or
/// submersible, or pick an artifact up into the inventory. Returns
/// whether an item was picked up.
pub fn toggle_boat_enter(
    mode: &mut PlayerMode,
    nearest: Option<&InteractKind>,
    inventory: &mut Inventory,
) -> (picked: bool)
    requires
        old(mode).wf(),
    ensures
        final(mode).wf(),
        old(mode).in_boat || old(mode).in_submersible ==> !final(mode).in_boat
            && !final(mode).in_submersible && final(inventory).items@ == old(inventory).items@
            && !picked,
        !(old(mode).in_boat || old(mode).in_submersible) ==> match nearest {
            None => *final(mode) == *old(mode) && final(inventory).items@ == old(inventory).items@
                && !picked,
            Some(kind) => match *kind {
                InteractKind::EnterShip => final(mode).in_boat && !final(mode).in_submersible
                    && final(inventory).items@ == old(inventory).items@ && !picked,
                InteractKind::EnterSubmersible => final(mode).in_submersible
                    && !final(mode).in_boat && final(inventory).items@ == old(inventory).items@
                    && !picked,
                InteractKind::Pickup { item_id } => *final(mode) == *old(mode) && picked
                    && final(inventory).items@ == old(inventory).items@.push(item_id),
            },
        },
{
    if mode.in_boat || mode.in_submersible {
        mode.in_boat = false;
        mode.in_submersible = false;
        return false;
    }
    match nearest {
        None => false,
        Some(InteractKind::EnterShip) => {
            mode.in_boat = true;
            false
        },
        Some(InteractKind::EnterSubmersible) => {
            mode.in_submersible = true;
            false
        },
        Some(InteractKind::Pickup { item_id }) => {
            inventory.items.push(item_id.clone());
            true
        },
    }
}

} // verus!
