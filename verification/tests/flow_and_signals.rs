use abyss_core::character::{character_mouse_look, CharacterLook, PITCH_LIMIT};
use abyss_core::dynamics::Pose;
use abyss_core::game_state::{handle_escape_pause, menu_input, pause_input, GameState};
use abyss_core::geom::Vec3Fx;
use abyss_core::interaction::InteractKind;
use abyss_core::ocean::foam_intensity;
use abyss_core::ship::{ship_mouse_look, ShipVelocity};
use abyss_core::sim::{toggle_boat_enter, PlayerMode};
use abyss_core::submersible::submersible_mouse_look;
use abyss_core::winch::Inventory;

#[test]
fn game_state_transitions() {
    assert_eq!(GameState::default(), GameState::Menu);
    assert_eq!(menu_input(GameState::Menu, true), GameState::Playing);
    assert_eq!(menu_input(GameState::Menu, false), GameState::Menu);
    assert_eq!(menu_input(GameState::Playing, true), GameState::Playing);
    assert_eq!(pause_input(GameState::Paused, true), GameState::Playing);
    assert_eq!(pause_input(GameState::Menu, true), GameState::Menu);
}

#[test]
fn escape_toggles_pause_and_cursor() {
    let mut s = GameState::Playing;
    let locked = handle_escape_pause(&mut s, true);
    assert_eq!(s, GameState::Paused);
    assert!(!locked);
    let locked = handle_escape_pause(&mut s, true);
    assert_eq!(s, GameState::Playing);
    assert!(locked);
    let locked = handle_escape_pause(&mut s, false);
    assert_eq!(s, GameState::Playing);
    assert!(locked);
    let mut m = GameState::Menu;
    assert!(!handle_escape_pause(&mut m, true));
    assert_eq!(m, GameState::Menu);
}

#[test]
fn character_look_wraps_yaw_and_clamps_pitch() {
    let mut look = CharacterLook { yaw: 100, pitch: 0 };
    // Sensitivity of one angle unit per count.
    character_mouse_look(&mut look, 200, 0, 1000);
    assert_eq!(look.yaw, 3900);
    character_mouse_look(&mut look, 0, -1000000, 1000);
    assert_eq!(look.pitch, PITCH_LIMIT);
    character_mouse_look(&mut look, 0, 1000000, 1000);
    assert_eq!(look.pitch, -PITCH_LIMIT);
}

#[test]
fn ship_look_feeds_angular_velocity() {
    let mut vel = ShipVelocity { linear: Vec3Fx { x: 10, y: 20, z: 30 }, angular_y: 1000 };
    // Half a second, one unit per count: -100 counts add 200 units/s, scaled.
    ship_mouse_look(&mut vel, -100, 1000, 500000);
    assert_eq!(vel.angular_y, 201000);
    assert_eq!(vel.linear, Vec3Fx { x: 10, y: 20, z: 30 });
}

#[test]
fn submersible_look_yields_clamped_yaw_rate() {
    // Half a second, one unit per count: 100 counts give 200 units/s, scaled.
    let ang = submersible_mouse_look(-100, 1000, 500000);
    assert_eq!(ang, 200000);
    // An extreme flick caps at the angular speed limit.
    let capped = submersible_mouse_look(-1000000, 100000, 1000);
    assert_eq!(capped, 100000000);
}

#[test]
fn interact_toggle_exits_vehicle_first() {
    let mut mode = PlayerMode { in_boat: true, in_submersible: false };
    let mut inv = Inventory { items: vec![] };
    let near = InteractKind::EnterSubmersible;
    let picked = toggle_boat_enter(&mut mode, Some(&near), &mut inv);
    assert!(!picked);
    assert!(!mode.in_boat && !mode.in_submersible);
}

#[test]
fn interact_toggle_boards_and_picks_up() {
    let mut mode = PlayerMode { in_boat: false, in_submersible: false };
    let mut inv = Inventory { items: vec![] };
    assert!(!toggle_boat_enter(&mut mode, Some(&InteractKind::EnterShip), &mut inv));
    assert!(mode.in_boat);
    mode = PlayerMode { in_boat: false, in_submersible: false };
    let pick = InteractKind::Pickup { item_id: "Artifact 2".to_string() };
    assert!(toggle_boat_enter(&mut mode, Some(&pick), &mut inv));
    assert!(!mode.in_boat && !mode.in_submersible);
    assert_eq!(inv.items, vec!["Artifact 2".to_string()]);
    assert!(!toggle_boat_enter(&mut mode, None, &mut inv));
    assert_eq!(inv.items.len(), 1);
}

#[test]
fn foam_tracks_surface_steepness() {
    // A flat surface shows no foam.
    assert_eq!(foam_intensity(0, 0, 0, 0, 23077, 12, 60), 0);
    // Gradient 40 thousandths between thresholds 12 and 60 maps linearly:
    // (40 - 12) * 1000 / 48 = 583.
    assert_eq!(foam_intensity(0, 80, 0, 0, 1000, 12, 60), 583);
    // A steep face saturates at full foam.
    assert_eq!(foam_intensity(0, 100000, 0, 0, 1000, 12, 60), 1000);
}
