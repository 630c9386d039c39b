use abyss_core::geom::{isqrt64, isqrt64_ceil, Vec3Fx};
use abyss_core::ocean::{GerstnerWave, OceanSolver};
use abyss_core::trig::{cos_fx, sin_fx};
use abyss_core::units::{SEA_LEVEL, TIME_LIMIT};

fn v(x: i64, y: i64, z: i64) -> Vec3Fx {
    Vec3Fx { x, y, z }
}

#[test]
fn isqrt_exact_values() {
    assert_eq!(isqrt64(0), 0);
    assert_eq!(isqrt64(1), 1);
    assert_eq!(isqrt64(2), 1);
    assert_eq!(isqrt64(3), 1);
    assert_eq!(isqrt64(4), 2);
    assert_eq!(isqrt64(999999), 999);
    assert_eq!(isqrt64(1000000), 1000);
    assert_eq!(isqrt64(u64::MAX), 4294967295);
    assert_eq!(isqrt64_ceil(0), 0);
    assert_eq!(isqrt64_ceil(1), 1);
    assert_eq!(isqrt64_ceil(2), 2);
    assert_eq!(isqrt64_ceil(4), 2);
    assert_eq!(isqrt64_ceil(5), 3);
}

#[test]
fn oscillator_quarter_points() {
    assert_eq!(sin_fx(0), 0);
    assert_eq!(sin_fx(1000), 1000);
    assert_eq!(sin_fx(2000), 0);
    assert_eq!(sin_fx(3000), -1000);
    assert_eq!(sin_fx(3999), -1);
    assert_eq!(cos_fx(0), 1000);
    assert_eq!(cos_fx(1000), 0);
    assert_eq!(cos_fx(2000), -1000);
    assert_eq!(cos_fx(3000), 0);
}

#[test]
fn wave_constructor_rejects_bad_wavelength() {
    assert!(GerstnerWave::new(0, 600, 4000, 1000, 200, 400).is_none());
    assert!(GerstnerWave::new(-60000, 600, 4000, 1000, 200, 400).is_none());
    assert!(GerstnerWave::new(60000, 600, 4000, 1000, 200, 400).is_some());
}

#[test]
fn wave_constructor_rejects_zero_direction() {
    assert!(GerstnerWave::new(60000, 600, 4000, 0, 0, 400).is_none());
}

#[test]
fn wave_constructor_rejects_bad_steepness() {
    assert!(GerstnerWave::new(60000, 600, 4000, 1000, 200, 1001).is_none());
    assert!(GerstnerWave::new(60000, 600, 4000, 1000, 200, -1).is_none());
}

#[test]
fn wave_constructor_normalizes_direction() {
    let w = GerstnerWave::new(60000, 600, 4000, 300000, 400000, 400).unwrap();
    // A 3-4-5 triangle normalizes exactly.
    assert_eq!(w.dir_x, 600);
    assert_eq!(w.dir_z, 800);
    let n2 = w.dir_x * w.dir_x + w.dir_z * w.dir_z;
    assert!(n2 <= 1000 * 1000);
    assert!(w.dir_x != 0 || w.dir_z != 0);
}

#[test]
fn default_sea_layers_are_fixed() {
    let ocean = OceanSolver::default();
    assert_eq!(ocean.time, 0);
    assert_eq!(ocean.waves.len(), 3);
    let w0 = &ocean.waves[0];
    assert_eq!(
        (w0.wavelength, w0.amplitude, w0.speed, w0.dir_x, w0.dir_z, w0.steepness),
        (60000, 600, 4000, 980, 196, 400),
    );
    let w1 = &ocean.waves[1];
    assert_eq!(
        (w1.wavelength, w1.amplitude, w1.speed, w1.dir_x, w1.dir_z, w1.steepness),
        (35000, 350, 2500, 707, 707, 600),
    );
    let w2 = &ocean.waves[2];
    assert_eq!(
        (w2.wavelength, w2.amplitude, w2.speed, w2.dir_x, w2.dir_z, w2.steepness),
        (15000, 200, 3500, 196, 980, 800),
    );
}

#[test]
fn height_at_origin_is_sea_level() {
    let ocean = OceanSolver::default();
    // Every layer's phase is zero at the origin at time zero.
    assert_eq!(ocean.wave_height_at(v(0, 0, 0)), SEA_LEVEL);
}

#[test]
fn height_is_deterministic() {
    let a = OceanSolver::default();
    let b = OceanSolver::default();
    let p = v(123456, 0, -654321);
    assert_eq!(a.wave_height_at(p), b.wave_height_at(p));
    assert_eq!(a.wave_height_at(p), a.wave_height_at(p));
}

#[test]
fn height_moves_little_between_close_samples() {
    // A millimetre of travel moves the surface by far less than a layer
    // amplitude: the discrete continuity bound at work.
    let mut ocean = OceanSolver::default();
    ocean.advance_time(1000000);
    let h0 = ocean.wave_height_at(v(500000, 0, 500000));
    let h1 = ocean.wave_height_at(v(500001, 0, 500000));
    assert!((h0 - h1).abs() <= 10);
}

#[test]
fn advance_time_saturates_at_limit() {
    let mut ocean = OceanSolver::default();
    ocean.time = TIME_LIMIT - 5;
    ocean.advance_time(1000000);
    assert_eq!(ocean.time, TIME_LIMIT);
}

#[test]
fn height_bounded_by_amplitudes() {
    let mut ocean = OceanSolver::default();
    for _ in 0..100 {
        ocean.advance_time(16667);
        let h = ocean.wave_height_at(v(250000, 0, -125000));
        // Total amplitude of the default layers is 1150.
        assert!((h - SEA_LEVEL).abs() <= 1150 + 3);
    }
}
