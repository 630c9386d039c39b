use abyss_core::character::{character_movement, CharacterVelocity, MarineCharacter, MoveInput};
use abyss_core::dynamics::Pose;
use abyss_core::geom::Vec3Fx;
use abyss_core::ocean::OceanSolver;
use abyss_core::ship::{
    ship_buoyancy, ship_input, ship_island_collision, ship_movement, IslandCollider, Ship,
    ShipVelocity,
};
use abyss_core::shapes::{ColliderShape, PlacedCollider};
use abyss_core::submersible::{
    submersible_input, submersible_island_collision, submersible_movement, Submersible,
    SubmersibleVelocity,
};

const DT: i64 = 16667;

fn v(x: i64, y: i64, z: i64) -> Vec3Fx {
    Vec3Fx { x, y, z }
}

fn default_ship() -> Ship {
    Ship::default()
}

fn default_sub() -> Submersible {
    Submersible::default()
}

#[test]
fn submersible_idle_velocity_decays_to_zero() {
    let sub = default_sub();
    let mut pose = Pose { pos: v(0, -10000, 0), yaw: 0 };
    let mut vel = SubmersibleVelocity(v(1000, 500, -800));
    // One tick applies the retention factor exactly.
    submersible_movement(&sub, &mut pose, &mut vel, DT);
    assert_eq!((vel.0.x, vel.0.y, vel.0.z), (950, 475, -760));
    // The speed shrinks every tick until the submersible rests.
    let mut last = vel.0.x.abs() + vel.0.y.abs() + vel.0.z.abs();
    for _ in 0..400 {
        submersible_movement(&sub, &mut pose, &mut vel, DT);
        let mag = vel.0.x.abs() + vel.0.y.abs() + vel.0.z.abs();
        assert!(mag <= last);
        if last > 0 {
            assert!(mag < last);
        }
        last = mag;
    }
    assert_eq!(last, 0);
}

#[test]
fn submersible_throttle_drives_forward() {
    let mut sub = default_sub();
    submersible_input(&mut sub, 1000, 0, 0);
    assert_eq!(sub.current_throttle, 1000);
    let mut pose = Pose { pos: v(0, -10000, 0), yaw: 0 };
    let mut vel = SubmersibleVelocity(v(0, 0, 0));
    submersible_movement(&sub, &mut pose, &mut vel, DT);
    // Forward at yaw zero is -z.
    assert!(vel.0.z < 0);
    assert_eq!(vel.0.x, 0);
    assert!(pose.pos.z < 0);
}

#[test]
fn submersible_input_clamps() {
    let mut sub = default_sub();
    submersible_input(&mut sub, 5000, -5000, 123);
    assert_eq!(sub.current_throttle, 1000);
    assert_eq!(sub.current_steering, -1000);
    assert_eq!(sub.current_vertical, 123);
}

#[test]
fn ship_settles_toward_float_equilibrium() {
    // All pontoons start submerged with zero throttle; over repeated ticks
    // the hull neither climbs without limit nor sinks: it ends near the
    // surface with a modest vertical speed.
    let ocean = OceanSolver::default();
    let ship = default_ship();
    let mut pose = Pose { pos: v(0, -5000, 0), yaw: 0 };
    let mut vel = ShipVelocity { linear: v(0, 0, 0), angular_y: 0 };
    for _ in 0..3600 {
        ship_buoyancy(&ocean, &ship, &pose, &mut vel, DT);
        ship_movement(&ocean, &ship, &mut pose, &mut vel, DT);
        assert!(pose.pos.y > -80000);
        assert!(pose.pos.y < 1000000);
    }
    assert!(vel.linear.y.abs() < 100000);
    assert!(pose.pos.y > -20000 && pose.pos.y < 100000);
}

#[test]
fn ship_input_clamps_and_sets_controls() {
    let mut ship = default_ship();
    ship_input(&mut ship, 2000, -1);
    assert_eq!(ship.current_throttle, 1000);
    assert_eq!(ship.current_steering, -1);
    assert_eq!(ship.engine_power, 22000);
}

#[test]
fn ship_pushed_out_of_island_circle() {
    let islands = vec![IslandCollider { center: v(0, 0, 0), radius: 45000 }];
    // Ship 30 m from the island center overlaps (45 + 10 m combined radius).
    let mut pose = Pose { pos: v(30000, 2000, 0), yaw: 0 };
    let mut vel = ShipVelocity { linear: v(-5000, 0, 0), angular_y: 0 };
    ship_island_collision(&mut pose, &mut vel, &islands);
    let d2 = pose.pos.x * pose.pos.x + pose.pos.z * pose.pos.z;
    assert!(d2 >= 55000i64 * 55000);
    // The inbound velocity component was projected away.
    assert!(vel.linear.x >= 0);
    assert_eq!(pose.pos.y, 2000);
}

#[test]
fn ship_outside_island_circle_untouched() {
    let islands = vec![IslandCollider { center: v(0, 0, 0), radius: 45000 }];
    let mut pose = Pose { pos: v(60000, 2000, 0), yaw: 0 };
    let mut vel = ShipVelocity { linear: v(-5000, 0, 0), angular_y: 0 };
    ship_island_collision(&mut pose, &mut vel, &islands);
    assert_eq!(pose.pos, v(60000, 2000, 0));
    assert_eq!(vel.linear, v(-5000, 0, 0));
}

#[test]
fn submersible_pushed_out_of_island_shape() {
    let colliders = vec![
        PlacedCollider {
            center: v(0, -10000, 0),
            shape: ColliderShape::Cylinder { radius: 20000, half_height: 8000 },
        },
    ];
    // Hull center 5 m from the shape axis, well inside radius plus margin.
    let mut pose = Pose { pos: v(5000, -10000, 0), yaw: 0 };
    let mut vel = SubmersibleVelocity(v(-3000, 0, 0));
    submersible_island_collision(&mut pose, &mut vel, &colliders);
    let d2 = pose.pos.x * pose.pos.x + pose.pos.z * pose.pos.z;
    assert!(d2 >= 30000i64 * 30000);
    assert!(vel.0.x >= 0);
}

#[test]
fn character_never_falls_through_seafloor() {
    let ch = MarineCharacter { walk_speed: 4000, jump_velocity: 6000 };
    let ocean = OceanSolver::default();
    let colliders: Vec<PlacedCollider> = vec![];
    let mut pose = Pose { pos: v(0, -79000, 0), yaw: 0 };
    let mut vel = CharacterVelocity(v(0, 0, 0));
    let idle = MoveInput { move_x: 0, move_z: 0, jump: false, ascend: false, descend: false };
    for _ in 0..600 {
        character_movement(&ch, &ocean, &colliders, &mut pose, &mut vel, idle, DT);
        assert!(pose.pos.y >= -80000);
    }
    assert_eq!(pose.pos.y, -80000);
    // At rest on the floor only a sub-step residual of sink speed remains.
    assert!(vel.0.y.abs() < 60);
}

#[test]
fn character_swim_vertical_speed_clamped() {
    let ch = MarineCharacter { walk_speed: 4000, jump_velocity: 6000 };
    let ocean = OceanSolver::default();
    let colliders: Vec<PlacedCollider> = vec![];
    let mut pose = Pose { pos: v(0, -10000, 0), yaw: 0 };
    let mut vel = CharacterVelocity(v(0, 0, 0));
    let dive = MoveInput { move_x: 0, move_z: 0, jump: false, ascend: false, descend: true };
    for _ in 0..300 {
        character_movement(&ch, &ocean, &colliders, &mut pose, &mut vel, dive, DT);
        assert!(-4000 <= vel.0.y && vel.0.y <= 8000);
    }
}

#[test]
fn character_slides_along_island_shape() {
    let ch = MarineCharacter { walk_speed: 4000, jump_velocity: 6000 };
    let ocean = OceanSolver::default();
    let colliders = vec![
        PlacedCollider {
            center: v(0, -10000, 0),
            shape: ColliderShape::Disc { radius: 5000, half_height: 3000 },
        },
    ];
    let mut pose = Pose { pos: v(1000, -10000, 0), yaw: 0 };
    let mut vel = CharacterVelocity(v(-2000, 0, 0));
    let idle = MoveInput { move_x: 0, move_z: 0, jump: false, ascend: false, descend: false };
    character_movement(&ch, &ocean, &colliders, &mut pose, &mut vel, idle, DT);
    // Pushed out to at least the grown radius (the character margin).
    let dx = pose.pos.x;
    let dz = pose.pos.z;
    assert!(dx * dx + dz * dz >= 5400i64 * 5400);
}
