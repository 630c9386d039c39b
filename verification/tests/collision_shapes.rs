use abyss_core::geom::Vec3Fx;
use abyss_core::shapes::ColliderShape;

fn v(x: i64, y: i64, z: i64) -> Vec3Fx {
    Vec3Fx { x, y, z }
}

#[test]
fn box_pushes_along_least_depth_axis() {
    // Half-extents (2, 1, 3) metres, axis-aligned at the origin; the point
    // (1, 0, 0) with zero margin penetrates by 1 on x, 1 on y and 3 on z, so
    // the tie between x and y resolves to the first axis: a push along +x.
    let shape = ColliderShape::Box { half_extents: v(2000, 1000, 3000) };
    let push = shape.penetration(v(0, 0, 0), v(1000, 0, 0), 0).unwrap();
    assert_eq!(push, v(1000, 0, 0));
}

#[test]
fn box_outside_returns_none() {
    let shape = ColliderShape::Box { half_extents: v(2000, 1000, 3000) };
    assert!(shape.penetration(v(0, 0, 0), v(2500, 0, 0), 0).is_none());
    assert!(shape.penetration(v(0, 0, 0), v(0, 1000, 0), 0).is_none());
    assert!(shape.penetration(v(0, 0, 0), v(0, 0, -3200), 100).is_none());
}

#[test]
fn box_roundtrip_leaves_shape() {
    let shape = ColliderShape::Box { half_extents: v(2000, 1000, 3000) };
    let center = v(500, -200, 100);
    for &(px, py, pz) in
        [(600, -100, 0), (2400, 0, 0), (500, -1150, 100), (-1400, 500, 2900)].iter()
    {
        let p = v(px, py, pz);
        if let Some(push) = shape.penetration(center, p, 50) {
            let moved = v(p.x + push.x, p.y + push.y, p.z + push.z);
            assert!(shape.penetration(center, moved, 50).is_none());
        }
    }
}

#[test]
fn disc_pushes_radially_to_boundary() {
    // Radius 5 m, point 1 m off-center: the push completes the radius.
    let shape = ColliderShape::Disc { radius: 5000, half_height: 1000 };
    let push = shape.penetration(v(0, 0, 0), v(1000, 0, 0), 0).unwrap();
    assert_eq!(push, v(4000, 0, 0));
    let moved = v(5000, 0, 0);
    assert!(shape.penetration(v(0, 0, 0), moved, 0).is_none());
}

#[test]
fn disc_centered_point_gets_fixed_axis_push() {
    let shape = ColliderShape::Disc { radius: 5000, half_height: 1000 };
    let push = shape.penetration(v(0, 0, 0), v(0, 0, 0), 0).unwrap();
    assert_eq!(push, v(5000, 0, 0));
}

#[test]
fn disc_outside_height_band_returns_none() {
    let shape = ColliderShape::Disc { radius: 5000, half_height: 1000 };
    assert!(shape.penetration(v(0, 0, 0), v(0, 1500, 0), 0).is_none());
    assert!(shape.penetration(v(0, 0, 0), v(0, -1100, 0), 0).is_none());
    // Inclusive band edge still counts as inside (the push is horizontal).
    assert!(shape.penetration(v(0, 0, 0), v(0, 1000, 0), 0).is_some());
}

#[test]
fn cylinder_roundtrip_leaves_shape() {
    let shape = ColliderShape::Cylinder { radius: 3000, half_height: 2000 };
    let center = v(-1000, 500, 2000);
    for &(px, py, pz) in [(0, 0, 0), (-900, 600, 2100), (1500, 400, 800)].iter() {
        let p = v(px, py, pz);
        if let Some(push) = shape.penetration(center, p, 200) {
            let moved = v(p.x + push.x, p.y + push.y, p.z + push.z);
            assert!(shape.penetration(center, moved, 200).is_none());
        }
    }
}

#[test]
fn margin_grows_the_shape() {
    let shape = ColliderShape::Cylinder { radius: 3000, half_height: 2000 };
    let p = v(3400, 0, 0);
    assert!(shape.penetration(v(0, 0, 0), p, 0).is_none());
    assert!(shape.penetration(v(0, 0, 0), p, 500).is_some());
}
