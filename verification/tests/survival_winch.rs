use abyss_core::character::{character_oxygen, CharacterVelocity, MarineCharacter, MoveInput};
use abyss_core::dynamics::Pose;
use abyss_core::geom::Vec3Fx;
use abyss_core::interaction::{
    nearest_interactable_in_range, nearest_interactable_out_of_range, InteractKind, Interactable,
};
use abyss_core::ocean::OceanSolver;
use abyss_core::oxygen::{oxygen_drain, oxygen_refill, CharacterOxygen, DivingBell};
use abyss_core::shapes::PlacedCollider;
use abyss_core::ship::{IslandCollider, Ship, ShipVelocity};
use abyss_core::sim::{PlayerMode, SimState, TickInput};
use abyss_core::submersible::{Submersible, SubmersibleVelocity};
use abyss_core::winch::{
    deliver_attached_artifact, update_winch_joint_length, winch_controls, Artifact,
    AttachedArtifact, Inventory, WinchState, MAX_CABLE_LENGTH, MIN_CABLE_LENGTH,
};

const DT: i64 = 16667;

fn v(x: i64, y: i64, z: i64) -> Vec3Fx {
    Vec3Fx { x, y, z }
}

fn full_pool() -> CharacterOxygen {
    CharacterOxygen::default()
}

#[test]
fn oxygen_drains_on_exact_schedule() {
    // 1.2 units per second at sixty ticks a second drains 0.02 per tick:
    // from a full pool of 60 the level hits zero on tick 3000 (50 seconds,
    // max / drain_rate), firing exactly one drowning event.
    let mut pool = full_pool();
    let mut events = 0;
    for i in 1..=3000i64 {
        let drowned = oxygen_drain(&mut pool, 1, DT);
        if drowned {
            events += 1;
            assert_eq!(i, 3000);
            assert_eq!(pool.current, pool.max);
        } else {
            assert_eq!(pool.current, 60000 - 20 * i);
        }
    }
    assert_eq!(events, 1);
}

#[test]
fn oxygen_refills_toward_max() {
    let mut pool = full_pool();
    pool.current = 1000;
    oxygen_refill(&mut pool, DT);
    // 25 per second refills 416 units in a sixtieth of a second.
    assert_eq!(pool.current, 1416);
    for _ in 0..200 {
        oxygen_refill(&mut pool, DT);
    }
    assert_eq!(pool.current, pool.max);
}

#[test]
fn oxygen_pressure_multiplier_triples_drain() {
    let mut shallow = full_pool();
    let mut deep = full_pool();
    oxygen_drain(&mut shallow, 1, DT);
    oxygen_drain(&mut deep, 3, DT);
    assert_eq!(shallow.current, 60000 - 20);
    assert_eq!(deep.current, 60000 - 60);
}

#[test]
fn character_drowning_teleports_to_respawn() {
    // Submerged five metres below sea level with no input: oxygen drains to
    // exactly zero after max / drain_rate seconds and the character resets
    // to the safe respawn point with a full pool.
    let ocean = OceanSolver::default();
    let mut pose = Pose { pos: v(0, -7000, 0), yaw: 0 };
    let mut oxy = full_pool();
    let mut vel = CharacterVelocity(v(0, 100, 0));
    let mut drown_tick = 0i64;
    let mut events = 0;
    for i in 1..=3000i64 {
        if character_oxygen(&ocean, &mut pose, &mut oxy, &mut vel, DT) {
            events += 1;
            drown_tick = i;
        }
    }
    assert_eq!(events, 1);
    assert_eq!(drown_tick, 3000);
    assert_eq!(pose.pos, v(-40000, 500, 28666));
    assert_eq!(vel.0, v(0, 0, 0));
    assert_eq!(oxy.current, oxy.max);
}

#[test]
fn winch_reel_never_leaves_limits() {
    let mut winch = WinchState { cable_length: MAX_CABLE_LENGTH };
    for _ in 0..2000 {
        winch_controls(&mut winch, true, false, DT);
        assert!(MIN_CABLE_LENGTH <= winch.cable_length);
        assert!(winch.cable_length <= MAX_CABLE_LENGTH);
    }
    assert_eq!(winch.cable_length, MIN_CABLE_LENGTH);
    for _ in 0..2000 {
        winch_controls(&mut winch, false, true, DT);
        assert!(MIN_CABLE_LENGTH <= winch.cable_length);
        assert!(winch.cable_length <= MAX_CABLE_LENGTH);
    }
    assert_eq!(winch.cable_length, MAX_CABLE_LENGTH);
    // Both inputs at once leave the cable alone.
    winch_controls(&mut winch, true, true, DT);
    assert_eq!(winch.cable_length, MAX_CABLE_LENGTH);
}

#[test]
fn delivery_fires_exactly_once_per_reel_in() {
    let winch = WinchState { cable_length: MIN_CABLE_LENGTH + 400 };
    let mut attached = AttachedArtifact(Some(0));
    let mut artifacts = vec![
        Artifact { item_id: "Heavy Artifact 1".to_string() },
        Artifact { item_id: "Heavy Artifact 2".to_string() },
    ];
    let mut inventory = Inventory { items: vec![] };
    let first = deliver_attached_artifact(&winch, &mut attached, &mut artifacts, &mut inventory);
    assert!(first);
    assert_eq!(attached.0, None);
    assert_eq!(artifacts.len(), 1);
    assert_eq!(inventory.items, vec!["Heavy Artifact 1".to_string()]);
    // Length stays at the minimum, but nothing is attached any more.
    let second = deliver_attached_artifact(&winch, &mut attached, &mut artifacts, &mut inventory);
    assert!(!second);
    assert_eq!(inventory.items.len(), 1);
    assert_eq!(artifacts.len(), 1);
}

#[test]
fn delivery_waits_for_full_reel_in() {
    let winch = WinchState { cable_length: MIN_CABLE_LENGTH + 501 };
    let mut attached = AttachedArtifact(Some(0));
    let mut artifacts = vec![Artifact { item_id: "Heavy Artifact 1".to_string() }];
    let mut inventory = Inventory { items: vec![] };
    let fired = deliver_attached_artifact(&winch, &mut attached, &mut artifacts, &mut inventory);
    assert!(!fired);
    assert_eq!(attached.0, Some(0));
    assert_eq!(artifacts.len(), 1);
    assert!(inventory.items.is_empty());
}

#[test]
fn delivery_tolerates_missing_artifact() {
    // An attachment whose artifact is gone makes the pass a no-op: nothing
    // delivered, nothing cleared, nothing crashed.
    let winch = WinchState { cable_length: MIN_CABLE_LENGTH };
    let mut attached = AttachedArtifact(Some(5));
    let mut artifacts = vec![Artifact { item_id: "Heavy Artifact 1".to_string() }];
    let mut inventory = Inventory { items: vec![] };
    let fired = deliver_attached_artifact(&winch, &mut attached, &mut artifacts, &mut inventory);
    assert!(!fired);
    assert_eq!(attached.0, Some(5));
    assert_eq!(artifacts.len(), 1);
    assert!(inventory.items.is_empty());
}

#[test]
fn cable_constraint_pulls_submersible_back() {
    let winch = WinchState { cable_length: MAX_CABLE_LENGTH };
    let ship = Pose { pos: v(0, 2000, 0), yaw: 0 };
    let mut sub = Pose { pos: v(0, 2000, 150000), yaw: 0 };
    update_winch_joint_length(&winch, &ship, &mut sub);
    // Anchors: ship (0, 2600, 2500); submersible top (x, y + 2500, z).
    let dx = sub.pos.x - 0;
    let dy = sub.pos.y + 2500 - 2600;
    let dz = sub.pos.z - 2500;
    let d2 = dx * dx + dy * dy + dz * dz;
    assert!(d2 <= MAX_CABLE_LENGTH * MAX_CABLE_LENGTH);
}

#[test]
fn cable_constraint_leaves_slack_cable_alone() {
    let winch = WinchState { cable_length: MAX_CABLE_LENGTH };
    let ship = Pose { pos: v(0, 2000, 0), yaw: 0 };
    let mut sub = Pose { pos: v(0, -20000, 30000), yaw: 0 };
    update_winch_joint_length(&winch, &ship, &mut sub);
    assert_eq!(sub.pos, v(0, -20000, 30000));
}

#[test]
fn nearest_interactable_prefers_closest_then_earliest() {
    let kind = InteractKind::EnterShip;
    let items = vec![
        (v(10000, 0, 0), Interactable { kind: kind.clone(), range: 6000 }),
        (v(3000, 0, 0), Interactable { kind: kind.clone(), range: 6000 }),
        (v(-3000, 0, 0), Interactable { kind: kind.clone(), range: 6000 }),
        (v(100000, 0, 0), Interactable { kind: kind.clone(), range: 6000 }),
    ];
    // Entries 1 and 2 tie at distance 3; the earliest wins.
    assert_eq!(nearest_interactable_in_range(v(0, 0, 0), &items), Some(1));
}

#[test]
fn nearest_interactable_none_when_out_of_range() {
    let items = vec![
        (v(10000, 0, 0), Interactable { kind: InteractKind::EnterSubmersible, range: 6000 }),
    ];
    assert_eq!(nearest_interactable_in_range(v(0, 0, 0), &items), None);
    // But it shows up in the "move closer" band.
    let d = nearest_interactable_out_of_range(v(0, 0, 0), 6000, 15000, &items);
    assert_eq!(d, Some(10000i64 * 10000));
}

#[test]
fn interact_prompts() {
    assert_eq!(InteractKind::EnterShip.prompt(), "Press E to enter ship");
    assert_eq!(InteractKind::EnterSubmersible.prompt(), "Press E to enter submersible");
    let k = InteractKind::Pickup { item_id: "Artifact 1".to_string() };
    assert_eq!(k.prompt(), "Press E to pick up Artifact 1");
}

fn base_sim() -> SimState {
    SimState {
        ocean: OceanSolver::default(),
        ship: Ship::default(),
        ship_pose: Pose { pos: v(0, 2000, 0), yaw: 0 },
        ship_vel: ShipVelocity { linear: v(0, 0, 0), angular_y: 0 },
        sub: Submersible::default(),
        sub_pose: Pose { pos: v(0, -4000, -25000), yaw: 0 },
        sub_vel: SubmersibleVelocity(v(0, 0, 0)),
        character: MarineCharacter::default(),
        char_pose: Pose { pos: v(0, -7000, 0), yaw: 0 },
        char_vel: CharacterVelocity(v(0, 0, 0)),
        char_oxygen: full_pool(),
        bell: DivingBell::default(),
        winch: WinchState::default(),
        attached: AttachedArtifact(None),
        artifacts: vec![],
        inventory: Inventory { items: vec![] },
        islands: vec![],
        colliders: vec![],
        mode: PlayerMode::default(),
    }
}

fn idle_input() -> TickInput {
    TickInput {
        throttle: 0,
        steering: 0,
        vertical: 0,
        movement: MoveInput { move_x: 0, move_z: 0, jump: false, ascend: false, descend: false },
        reel_in: false,
        reel_out: false,
    }
}

#[test]
fn end_to_end_drowning_respawns_character() {
    // A swimmer left submerged with zero input sinks, drains oxygen (faster
    // below the pressure depth) and eventually drowns: the character resets
    // to the safe respawn point with a full pool, exactly once.
    let mut sim = base_sim();
    let mut events = 0;
    let mut drown_tick = 0i64;
    for i in 1..=3000i64 {
        if sim.tick(idle_input(), DT) {
            events += 1;
            if drown_tick == 0 {
                drown_tick = i;
            }
            break;
        }
        assert!(sim.char_oxygen.current < 60000);
    }
    assert_eq!(events, 1);
    // Sinking takes the swimmer below the pressure depth partway through,
    // so depletion lands between the pure 1x and pure 3x schedules.
    assert!(1000 <= drown_tick && drown_tick <= 3000);
    assert_eq!(sim.char_pose.pos, v(-40000, 500, 28666));
    assert_eq!(sim.char_oxygen.current, sim.char_oxygen.max);
}

#[test]
fn tick_routes_input_to_active_vehicle() {
    let mut sim = base_sim();
    sim.mode = PlayerMode { in_boat: true, in_submersible: false };
    sim.tick(
        TickInput {
            throttle: 1000,
            steering: -1000,
            vertical: 0,
            movement: MoveInput {
                move_x: 0,
                move_z: 0,
                jump: false,
                ascend: false,
                descend: false,
            },
            reel_in: true,
            reel_out: false,
        },
        DT,
    );
    assert_eq!(sim.ship.current_throttle, 1000);
    assert_eq!(sim.ship.current_steering, -1000);
    assert_eq!(sim.sub.current_throttle, 0);
    assert!(sim.winch.cable_length < MAX_CABLE_LENGTH);
    // On foot nothing reaches the vehicles.
    let mut sim2 = base_sim();
    sim2.tick(
        TickInput {
            throttle: 1000,
            steering: 1000,
            vertical: 1000,
            movement: MoveInput {
                move_x: 0,
                move_z: 0,
                jump: false,
                ascend: false,
                descend: false,
            },
            reel_in: true,
            reel_out: false,
        },
        DT,
    );
    assert_eq!(sim2.ship.current_throttle, 0);
    assert_eq!(sim2.sub.current_throttle, 0);
    assert_eq!(sim2.winch.cable_length, MAX_CABLE_LENGTH);
}

#[test]
fn diving_bell_drains_underwater_and_refills_surfaced() {
    let mut sim = base_sim();
    // The submersible sits below the waves: its bell drains, 2 per second.
    sim.tick(idle_input(), DT);
    assert_eq!(sim.bell.current_oxygen, 100000 - 33);
    // Move it into the air with a half-empty supply: it refills toward max.
    let mut dry = base_sim();
    dry.sub_pose.pos = v(0, 20000, -25000);
    dry.bell.current_oxygen = 50000;
    dry.tick(idle_input(), DT);
    assert_eq!(dry.bell.current_oxygen, 50000 + 416);
    // A full surfaced supply stays capped at the maximum.
    let mut full = base_sim();
    full.sub_pose.pos = v(0, 20000, -25000);
    full.tick(idle_input(), DT);
    assert_eq!(full.bell.current_oxygen, 100000);
}
