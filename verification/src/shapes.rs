//! Primitive collision shapes and penetration queries.
//!
//! Shapes are evaluated against a world-space center; the query takes the
//! point to test and a margin. A query answers `None` exactly when the point
//! lies outside the shape grown by the margin, and otherwise returns a push
//! vector: adding it to the point lands on or outside the margin boundary, so
//! the query on the pushed point answers `None`. For boxes the pushed point
//! sits exactly on the boundary; for the round shapes the integer square root
//! rounds the push outward by at most a couple of length units.

use vstd::prelude::*;
use crate::geom::{is_sqrt_fl, isqrt64, lemma_sqrt_fl_unique, sqrt_fl_of, Vec3Fx};
use crate::units::{absi, div_away, div_away_spec, lemma_div_away_props, lemma_mul_bound, POS_LIMIT};

verus! {

/// Largest accepted shape dimension (radius, half height, half extent).
pub const SHAPE_LIMIT: i64 = 1000000;

/// Collision shape for islands. Used for ship and character collision.
#[derive(Clone, Copy, PartialEq, Eq, Structural, Debug)]
pub enum ColliderShape {
    /// Flat disc for organic blobs, sand rings and atolls.
    Disc { radius: i64, half_height: i64 },
    /// Axis-aligned box for compound cuboid parts.
    Box { half_extents: Vec3Fx },
    /// Cylinder approximating cone parts.
    Cylinder { radius: i64, half_height: i64 },
}

impl ColliderShape {
    /// Well-formed shape: positive radius or extents, within the size limit.
    pub open spec fn wf(self) -> bool {
        match self {
            ColliderShape::Disc { radius, half_height } => {
                1 <= radius <= SHAPE_LIMIT && 0 <= half_height <= SHAPE_LIMIT
            },
            ColliderShape::Box { half_extents } => {
                &&& 1 <= half_extents.x <= SHAPE_LIMIT
                &&& 1 <= half_extents.y <= SHAPE_LIMIT
                &&& 1 <= half_extents.z <= SHAPE_LIMIT
            },
            ColliderShape::Cylinder { radius, half_height } => {
                1 <= radius <= SHAPE_LIMIT && 0 <= half_height <= SHAPE_LIMIT
            },
        }
    }

    /// If `point` is inside this shape centered at `center` (grown by
    /// `margin`), returns the push vector that escapes it.
    pub fn penetration(&self, center: Vec3Fx, point: Vec3Fx, margin: i64) -> (r: Option<Vec3Fx>)
        requires
            self.wf(),
            center.bounded(POS_LIMIT as int),
            point.bounded(POS_LIMIT as int),
            0 <= margin <= SHAPE_LIMIT,
        ensures
            r.is_some() <==> penetrates_at(
                *self,
                point.x - center.x,
                point.y - center.y,
                point.z - center.z,
                margin as int,
            ),
            r.is_some() ==> pen_push_ok(
                *self,
                point.x - center.x,
                point.y - center.y,
                point.z - center.z,
                margin as int,
                r.unwrap(),
            ),
    {
        let dx = point.x - center.x;
        let dy = point.y - center.y;
        let dz = point.z - center.z;
        match self {
            ColliderShape::Disc { radius, half_height } => {
                radial_penetration(*radius, *half_height, dx, dy, dz, margin)
            },
            ColliderShape::Box { half_extents } => {
                box_penetration(*half_extents, dx, dy, dz, margin)
            },
            ColliderShape::Cylinder { radius, half_height } => {
                radial_penetration(*radius, *half_height, dx, dy, dz, margin)
            },
        }
    }
}

/// Whether a point at offset `(dx, dy, dz)` from the center penetrates the
/// shape grown by `margin`.
pub open spec fn penetrates_at(
    shape: ColliderShape,
    dx: int,
    dy: int,
    dz: int,
    margin: int,
) -> bool {
    match shape {
        ColliderShape::Disc { radius, half_height } => {
            radial_penetrates(radius as int, half_height as int, dx, dy, dz, margin)
        },
        ColliderShape::Box { half_extents } => {
            &&& absi(dx) < half_extents.x + margin
            &&& absi(dy) < half_extents.y + margin
            &&& absi(dz) < half_extents.z + margin
        },
        ColliderShape::Cylinder { radius, half_height } => {
            radial_penetrates(radius as int, half_height as int, dx, dy, dz, margin)
        },
    }
}

/// Penetration test shared by the disc and the cylinder: strictly inside the
/// grown radius in the horizontal plane, and within the grown vertical band.
pub open spec fn radial_penetrates(
    radius: int,
    half_height: int,
    dx: int,
    dy: int,
    dz: int,
    margin: int,
) -> bool {
    let l = radius + margin;
    dx * dx + dz * dz < l * l && -(half_height + margin) <= dy <= half_height + margin
}

/// Sign convention of the push: a zero offset counts as positive, matching
/// the sign a degenerate centered point is pushed along.
pub open spec fn sgn_pos(x: int) -> int {
    if x >= 0 {
        1
    } else {
        -1
    }
}

/// The exact box push: along the local axis of least penetration depth, ties
/// resolved in axis order x, y, z.
pub open spec fn box_push(
    hx: int,
    hy: int,
    hz: int,
    dx: int,
    dy: int,
    dz: int,
    margin: int,
) -> (int, int, int) {
    let px = hx + margin - absi(dx);
    let py = hy + margin - absi(dy);
    let pz = hz + margin - absi(dz);
    if px <= py && px <= pz {
        (sgn_pos(dx) * px, 0, 0)
    } else if py <= pz {
        (0, sgn_pos(dy) * py, 0)
    } else {
        (0, 0, sgn_pos(dz) * pz)
    }
}

/// The exact radial push, given the floor square root `s` of the squared
/// horizontal distance: radially outward by the remaining distance to the
/// grown radius, each component rounded away from zero; a point at the exact
/// center is pushed along the positive x axis.
pub open spec fn radial_push(radius: int, dx: int, dz: int, margin: int, s: int) -> (
    int,
    int,
    int,
) {
    let l = radius + margin;
    if dx == 0 && dz == 0 {
        (l, 0, 0)
    } else {
        (div_away_spec((l - s) * dx, s), 0, div_away_spec((l - s) * dz, s))
    }
}

/// The exact push a penetrating point receives, or `None` when it is outside.
pub open spec fn penetration_spec(shape: ColliderShape, dx: int, dy: int, dz: int, margin: int) -> Option<
    (int, int, int),
> {
    if !penetrates_at(shape, dx, dy, dz, margin) {
        None
    } else {
        match shape {
            ColliderShape::Disc { radius, half_height } => Some(
                radial_push(radius as int, dx, dz, margin, sqrt_fl_of(dx * dx + dz * dz)),
            ),
            ColliderShape::Box { half_extents } => Some(
                box_push(
                    half_extents.x as int,
                    half_extents.y as int,
                    half_extents.z as int,
                    dx,
                    dy,
                    dz,
                    margin,
                ),
            ),
            ColliderShape::Cylinder { radius, half_height } => Some(
                radial_push(radius as int, dx, dz, margin, sqrt_fl_of(dx * dx + dz * dz)),
            ),
        }
    }
}

/// What a returned push vector guarantees: it leaves the shape (the query on
/// the pushed point answers `None`), and it is exactly the push the shape's
/// rule defines.
pub open spec fn pen_push_ok(
    shape: ColliderShape,
    dx: int,
    dy: int,
    dz: int,
    margin: int,
    v: Vec3Fx,
) -> bool {
    &&& !penetrates_at(shape, dx + v.x, dy + v.y, dz + v.z, margin)
    &&& penetration_spec(shape, dx, dy, dz, margin) == Some(
        (v.x as int, v.y as int, v.z as int),
    )
}

/// Boundary law for the box: a penetrating point, moved by its push vector,
/// lands exactly on the grown boundary — the push magnitude is precisely the
/// least penetration depth, no more and no less.
pub proof fn lemma_box_push_lands_on_boundary(
    hx: int,
    hy: int,
    hz: int,
    dx: int,
    dy: int,
    dz: int,
    margin: int,
)
    requires
        absi(dx) < hx + margin,
        absi(dy) < hy + margin,
        absi(dz) < hz + margin,
    ensures
        ({
            let v = box_push(hx, hy, hz, dx, dy, dz, margin);
            ||| (absi(dx + v.0) == hx + margin && v.1 == 0 && v.2 == 0)
            ||| (absi(dy + v.1) == hy + margin && v.0 == 0 && v.2 == 0)
            ||| (absi(dz + v.2) == hz + margin && v.0 == 0 && v.1 == 0)
        }),
{
    let px = hx + margin - absi(dx);
    let py = hy + margin - absi(dy);
    let pz = hz + margin - absi(dz);
    if px <= py && px <= pz {
        assert(sgn_pos(dx) * px == if dx >= 0 {
            px
        } else {
            -px
        }) by (nonlinear_arith);
    } else if py <= pz {
        assert(sgn_pos(dy) * py == if dy >= 0 {
            py
        } else {
            -py
        }) by (nonlinear_arith);
    } else {
        assert(sgn_pos(dz) * pz == if dz >= 0 {
            pz
        } else {
            -pz
        }) by (nonlinear_arith);
    }
}

/// A collision shape placed in the world.
#[derive(Clone, Copy, PartialEq, Eq, Structural, Debug)]
pub struct PlacedCollider {
    pub center: Vec3Fx,
    pub shape: ColliderShape,
}

impl PlacedCollider {
    /// Well-formed: bounded center, well-formed shape.
    pub open spec fn wf(self) -> bool {
        self.center.bounded(POS_LIMIT as int) && self.shape.wf()
    }
}

/// Every component of a returned push vector is bounded by twice the shape
/// size limit, so pushed positions and their squared lengths stay small.
pub proof fn lemma_push_bounds(shape: ColliderShape, dx: int, dy: int, dz: int, margin: int)
    requires
        shape.wf(),
        0 <= margin <= SHAPE_LIMIT,
        penetration_spec(shape, dx, dy, dz, margin).is_some(),
    ensures
        ({
            let v = penetration_spec(shape, dx, dy, dz, margin).unwrap();
            absi(v.0) <= 2 * SHAPE_LIMIT && absi(v.1) <= 2 * SHAPE_LIMIT && absi(v.2) <= 2
                * SHAPE_LIMIT
        }),
{
    match shape {
        ColliderShape::Box { half_extents } => {
        },
        ColliderShape::Disc { radius, half_height } => {
            lemma_radial_push_bounds(radius as int, dx, dz, margin);
        },
        ColliderShape::Cylinder { radius, half_height } => {
            lemma_radial_push_bounds(radius as int, dx, dz, margin);
        },
    }
}

/// The radial push never exceeds the grown radius in any component.
proof fn lemma_radial_push_bounds(radius: int, dx: int, dz: int, margin: int)
    requires
        1 <= radius <= SHAPE_LIMIT,
        0 <= margin <= SHAPE_LIMIT,
        dx * dx + dz * dz < (radius + margin) * (radius + margin),
    ensures
        ({
            let v = radial_push(radius, dx, dz, margin, sqrt_fl_of(dx * dx + dz * dz));
            absi(v.0) <= 2 * SHAPE_LIMIT && absi(v.1) <= 2 * SHAPE_LIMIT && absi(v.2) <= 2
                * SHAPE_LIMIT
        }),
{
    let l = radius + margin;
    let n = dx * dx + dz * dz;
    if dx == 0 && dz == 0 {
        assert(is_sqrt_fl(0, 0));
        lemma_sqrt_fl_unique(0, 0);
    } else {
        assert(n >= 1) by (nonlinear_arith)
            requires
                n == dx * dx + dz * dz,
                !(dx == 0 && dz == 0),
        ;
        let s = sqrt_fl_of(n);
        assert(is_sqrt_fl(s, n)) by {
            lemma_sqrt_exists(n);
        };
        assert(dx * dx >= 0 && dz * dz >= 0) by (nonlinear_arith);
        assert(1 <= s && s < l && absi(dx) <= s && absi(dz) <= s) by (nonlinear_arith)
            requires
                0 <= s,
                s * s <= n,
                n < (s + 1) * (s + 1),
                n >= 1,
                n < l * l,
                l >= 1,
                dx * dx <= n,
                dz * dz <= n,
                n == dx * dx + dz * dz,
        ;
        let p = l - s;
        assert(p * dx == dx * p && p * dz == dz * p) by (nonlinear_arith);
        crate::units::lemma_div_away_props(dx * p, s);
        crate::units::lemma_div_away_props(dz * p, s);
        lemma_away_small(dx, p, s);
        lemma_away_small(dz, p, s);
    }
}

/// Rounded away from zero, `d * p / s` stays within `p` when `|d| <= s`.
proof fn lemma_away_small(d: int, p: int, s: int)
    requires
        1 <= s,
        1 <= p,
        absi(d) <= s,
    ensures
        absi(div_away_spec(d * p, s)) <= p,
{
    let m = absi(d * p);
    assert(m == absi(d) * p && m <= s * p) by (nonlinear_arith)
        requires
            m == absi(d * p),
            absi(d) <= s,
            p >= 1,
    ;
    vstd::arithmetic::div_mod::lemma_div_is_ordered(m + s - 1, s * p + s - 1, s);
    assert(s * p + s - 1 == p * s + (s - 1)) by (nonlinear_arith);
    vstd::arithmetic::div_mod::lemma_fundamental_div_mod_converse(s * p + s - 1, s, p, s - 1);
}

/// Every nonnegative integer has a floor square root.
proof fn lemma_sqrt_exists(n: int)
    requires
        0 <= n,
    ensures
        is_sqrt_fl(sqrt_fl_of(n), n),
    decreases n,
{
    if n == 0 {
        assert(is_sqrt_fl(0, 0));
    } else {
        lemma_sqrt_exists(n - 1);
        let t = sqrt_fl_of(n - 1);
        assert(is_sqrt_fl(t, n - 1));
        if (t + 1) * (t + 1) <= n {
            assert(is_sqrt_fl(t + 1, n)) by (nonlinear_arith)
                requires
                    0 <= t,
                    t * t <= n - 1,
                    n - 1 < (t + 1) * (t + 1),
                    (t + 1) * (t + 1) <= n,
            ;
        } else {
            assert(is_sqrt_fl(t, n));
        }
    }
    let w = choose|s: int| is_sqrt_fl(s, n);
    assert(is_sqrt_fl(w, n));
    lemma_sqrt_fl_unique(w, n);
}

/// Disc and cylinder penetration: a horizontal radial push.
fn radial_penetration(radius: i64, half_height: i64, dx: i64, dy: i64, dz: i64, margin: i64) -> (r:
    Option<Vec3Fx>)
    requires
        1 <= radius <= SHAPE_LIMIT,
        0 <= half_height <= SHAPE_LIMIT,
        0 <= margin <= SHAPE_LIMIT,
        absi(dx as int) <= 2 * POS_LIMIT,
        absi(dy as int) <= 2 * POS_LIMIT,
        absi(dz as int) <= 2 * POS_LIMIT,
    ensures
        r.is_some() <==> radial_penetrates(
            radius as int,
            half_height as int,
            dx as int,
            dy as int,
            dz as int,
            margin as int,
        ),
        r.is_some() ==> {
            let v = r.unwrap();
            &&& !radial_penetrates(
                radius as int,
                half_height as int,
                dx + v.x,
                dy + v.y,
                dz + v.z,
                margin as int,
            )
            &&& (v.x as int, v.y as int, v.z as int) == radial_push(
                radius as int,
                dx as int,
                dz as int,
                margin as int,
                sqrt_fl_of((dx as int) * (dx as int) + (dz as int) * (dz as int)),
            )
        },
{
    let l = radius + margin;
    proof {
        lemma_mul_bound(dx as int, dx as int, 20000000, 20000000);
        lemma_mul_bound(dz as int, dz as int, 20000000, 20000000);
        lemma_mul_bound(l as int, l as int, 2000000, 2000000);
        assert((dx as int) * (dx as int) >= 0 && (dz as int) * (dz as int) >= 0)
            by (nonlinear_arith);
    }
    let d2 = dx * dx + dz * dz;
    let in_radius = d2 < l * l;
    let in_height = -(half_height + margin) <= dy && dy <= half_height + margin;
    if in_radius && in_height {
        if d2 == 0 {
            proof {
                assert(dx == 0 && dz == 0) by (nonlinear_arith)
                    requires
                        (dx as int) * (dx as int) + (dz as int) * (dz as int) == 0,
                ;
                assert(is_sqrt_fl(0, 0));
                lemma_sqrt_fl_unique(0, 0);
                assert(!((l as int) * (l as int) < (l as int) * (l as int)));
            }
            Some(Vec3Fx { x: l, y: 0, z: 0 })
        } else {
            let s = isqrt64(d2 as u64) as i64;
            proof {
                assert(s >= 1) by (nonlinear_arith)
                    requires
                        (s as int) * (s as int) <= d2 as int,
                        (s + 1) * (s + 1) > d2 as int,
                        d2 >= 1,
                        s >= 0,
                ;
                assert(s < l) by (nonlinear_arith)
                    requires
                        (s as int) * (s as int) <= d2 as int,
                        d2 < (l as int) * (l as int),
                        s >= 0,
                        l >= 1,
                ;
            }
            let p = l - s;
            proof {
                lemma_mul_bound(dx as int, p as int, 20000000, 2000000);
                lemma_mul_bound(dz as int, p as int, 20000000, 2000000);
            }
            let vx = div_away(dx * p, s);
            let vz = div_away(dz * p, s);
            proof {
                assert((dx as int) * (p as int) == (p as int) * (dx as int)) by (nonlinear_arith);
                assert((dz as int) * (p as int) == (p as int) * (dz as int)) by (nonlinear_arith);
                lemma_radial_roundtrip(
                    l as int,
                    dx as int,
                    dz as int,
                    s as int,
                    p as int,
                    vx as int,
                    vz as int,
                );
                assert(is_sqrt_fl(s as int, (dx as int) * (dx as int) + (dz as int) * (dz as int)));
                lemma_sqrt_fl_unique(
                    s as int,
                    (dx as int) * (dx as int) + (dz as int) * (dz as int),
                );
                assert((vx as int, 0int, vz as int) == radial_push(
                    radius as int,
                    dx as int,
                    dz as int,
                    margin as int,
                    s as int,
                ));
            }
            Some(Vec3Fx { x: vx, y: 0, z: vz })
        }
    } else {
        None
    }
}

/// Adding the radial push moves the point onto or past the grown radius.
proof fn lemma_radial_roundtrip(l: int, dx: int, dz: int, s: int, p: int, vx: int, vz: int)
    requires
        1 <= l,
        1 <= s,
        s * s <= dx * dx + dz * dz,
        p == l - s,
        p >= 1,
        vx == div_away_spec(dx * p, s),
        vz == div_away_spec(dz * p, s),
    ensures
        (dx + vx) * (dx + vx) + (dz + vz) * (dz + vz) >= l * l,
{
    lemma_radial_axis(dx, p, s, l, vx);
    lemma_radial_axis(dz, p, s, l, vz);
    assert((s * (dx + vx)) * (s * (dx + vx)) + (s * (dz + vz)) * (s * (dz + vz)) >= (l * dx) * (l
        * dx) + (l * dz) * (l * dz));
    assert((s * (dx + vx)) * (s * (dx + vx)) + (s * (dz + vz)) * (s * (dz + vz)) == (s * s) * ((dx
        + vx) * (dx + vx) + (dz + vz) * (dz + vz))) by (nonlinear_arith);
    assert((l * dx) * (l * dx) + (l * dz) * (l * dz) == (l * l) * (dx * dx + dz * dz))
        by (nonlinear_arith);
    assert((l * l) * (dx * dx + dz * dz) >= (l * l) * (s * s)) by (nonlinear_arith)
        requires
            s * s <= dx * dx + dz * dz,
            l >= 1,
    ;
    assert((dx + vx) * (dx + vx) + (dz + vz) * (dz + vz) >= l * l) by (nonlinear_arith)
        requires
            (s * s) * ((dx + vx) * (dx + vx) + (dz + vz) * (dz + vz)) >= (l * l) * (s * s),
            s >= 1,
    ;
}

/// One axis of the radial push: scaling by the push and rounding away from
/// zero stretches the offset to at least `l / s` times its length.
proof fn lemma_radial_axis(d: int, p: int, s: int, l: int, v: int)
    requires
        1 <= s,
        1 <= p,
        l == s + p,
        v == div_away_spec(d * p, s),
    ensures
        (s * (d + v)) * (s * (d + v)) >= (l * d) * (l * d),
{
    lemma_div_away_props(d * p, s);
    if d >= 0 {
        assert(d * p >= 0) by (nonlinear_arith)
            requires
                d >= 0,
                p >= 1,
        ;
        assert(s * (d + v) >= l * d && l * d >= 0) by (nonlinear_arith)
            requires
                1 <= s,
                1 <= p,
                l == s + p,
                d >= 0,
                v >= 0,
                v * s >= d * p,
        ;
        assert((s * (d + v)) * (s * (d + v)) >= (l * d) * (l * d)) by (nonlinear_arith)
            requires
                s * (d + v) >= l * d,
                l * d >= 0,
        ;
    } else {
        assert(d * p <= 0) by (nonlinear_arith)
            requires
                d < 0,
                p >= 1,
        ;
        assert(s * (d + v) <= l * d && l * d <= 0) by (nonlinear_arith)
            requires
                1 <= s,
                1 <= p,
                l == s + p,
                d < 0,
                v <= 0,
                v * s <= d * p,
        ;
        assert((s * (d + v)) * (s * (d + v)) >= (l * d) * (l * d)) by (nonlinear_arith)
            requires
                s * (d + v) <= l * d,
                l * d <= 0,
        ;
    }
}

/// Axis-aligned box penetration: push along the axis of least depth.
fn box_penetration(h: Vec3Fx, dx: i64, dy: i64, dz: i64, margin: i64) -> (r: Option<Vec3Fx>)
    requires
        1 <= h.x <= SHAPE_LIMIT,
        1 <= h.y <= SHAPE_LIMIT,
        1 <= h.z <= SHAPE_LIMIT,
        0 <= margin <= SHAPE_LIMIT,
        absi(dx as int) <= 2 * POS_LIMIT,
        absi(dy as int) <= 2 * POS_LIMIT,
        absi(dz as int) <= 2 * POS_LIMIT,
    ensures
        r.is_some() <==> absi(dx as int) < h.x + margin && absi(dy as int) < h.y + margin && absi(
            dz as int,
        ) < h.z + margin,
        r.is_some() ==> {
            let v = r.unwrap();
            &&& !(absi(dx + v.x) < h.x + margin && absi(dy + v.y) < h.y + margin && absi(
                dz + v.z,
            ) < h.z + margin)
            &&& (v.x as int, v.y as int, v.z as int) == box_push(
                h.x as int,
                h.y as int,
                h.z as int,
                dx as int,
                dy as int,
                dz as int,
                margin as int,
            )
        },
{
    let ax = if dx < 0 {
        -dx
    } else {
        dx
    };
    let ay = if dy < 0 {
        -dy
    } else {
        dy
    };
    let az = if dz < 0 {
        -dz
    } else {
        dz
    };
    let px = h.x + margin - ax;
    let py = h.y + margin - ay;
    let pz = h.z + margin - az;
    if px > 0 && py > 0 && pz > 0 {
        if px <= py && px <= pz {
            let sx = if dx >= 0 {
                px
            } else {
                -px
            };
            proof {
                lemma_sgn_mul(dx as int, px as int);
            }
            Some(Vec3Fx { x: sx, y: 0, z: 0 })
        } else if py <= pz {
            let sy = if dy >= 0 {
                py
            } else {
                -py
            };
            proof {
                lemma_sgn_mul(dy as int, py as int);
            }
            Some(Vec3Fx { x: 0, y: sy, z: 0 })
        } else {
            let sz = if dz >= 0 {
                pz
            } else {
                -pz
            };
            proof {
                lemma_sgn_mul(dz as int, pz as int);
            }
            Some(Vec3Fx { x: 0, y: 0, z: sz })
        }
    } else {
        None
    }
}

/// Multiplying by the sign convention is the signed copy of the magnitude.
proof fn lemma_sgn_mul(d: int, p: int)
    ensures
        sgn_pos(d) * p == if d >= 0 {
            p
        } else {
            -p
        },
{
    if d >= 0 {
        assert(1 * p == p) by (nonlinear_arith);
    } else {
        assert((-1) * p == -p) by (nonlinear_arith);
    }
}

} // verus!
