//! Integer vectors and square roots.

use vstd::prelude::*;
use crate::units::absi;

verus! {

/// A point or direction in world space, fixed-point length units.
#[derive(Clone, Copy, PartialEq, Eq, Structural, Debug)]
pub struct Vec3Fx {
    pub x: i64,
    pub y: i64,
    pub z: i64,
}

impl Vec3Fx {
    /// The zero vector.
    pub fn zero() -> (v: Vec3Fx)
        ensures
            v == (Vec3Fx { x: 0, y: 0, z: 0 }),
    {
        Vec3Fx { x: 0, y: 0, z: 0 }
    }

    /// Every component within `b` of zero.
    pub open spec fn bounded(self, b: int) -> bool {
        absi(self.x as int) <= b && absi(self.y as int) <= b && absi(self.z as int) <= b
    }
}

/// `s` is the floor square root of `n`.
pub open spec fn is_sqrt_fl(s: int, n: int) -> bool {
    0 <= s && s * s <= n && n < (s + 1) * (s + 1)
}

/// The floor square root of `n`, as a spec value.
pub open spec fn sqrt_fl_of(n: int) -> int {
    choose|s: int| is_sqrt_fl(s, n)
}

/// Floor square roots are unique, so any witness equals `sqrt_fl_of`.
pub proof fn lemma_sqrt_fl_unique(s: int, n: int)
    requires
        is_sqrt_fl(s, n),
    ensures
        s == sqrt_fl_of(n),
{
    let t = choose|t: int| is_sqrt_fl(t, n);
    assert(is_sqrt_fl(t, n));
    assert(s == t) by (nonlinear_arith)
        requires
            0 <= s,
            0 <= t,
            s * s <= n,
            n < (s + 1) * (s + 1),
            t * t <= n,
            n < (t + 1) * (t + 1),
    ;
}

/// The ceiling square root of `n`, as a spec value.
pub open spec fn sqrt_cl_of(n: int) -> int {
    let s = sqrt_fl_of(n);
    if s * s == n {
        s
    } else {
        s + 1
    }
}

/// Floor square root of a `u64`.
pub fn isqrt64(n: u64) -> (r: u64)
    ensures
        r * r <= n,
        (r + 1) * (r + 1) > n,
        r <= n,
        r == sqrt_fl_of(n as int),
{
    let r = isqrt64_inner(n);
    proof {
        assert(is_sqrt_fl(r as int, n as int));
        lemma_sqrt_fl_unique(r as int, n as int);
    }
    r
}

/// Floor square root search.
fn isqrt64_inner(n: u64) -> (r: u64)
    ensures
        r * r <= n,
        (r + 1) * (r + 1) > n,
        r <= n,
{
    let mut lo: u64 = 0;
    let mut hi: u64 = 4294967296;
    proof {
        assert((hi as int) * (hi as int) > n as int) by (nonlinear_arith)
            requires
                hi == 4294967296,
                n <= 0xffffffffffffffff,
        ;
    }
    while lo + 1 < hi
        invariant
            lo < hi,
            hi <= 4294967296,
            (lo as int) * (lo as int) <= n as int,
            (hi as int) * (hi as int) > n as int,
        decreases hi - lo,
    {
        let mid = lo + (hi - lo) / 2;
        proof {
            assert((mid as int) * (mid as int) < 0xffffffffffffffff) by (nonlinear_arith)
                requires
                    mid < 4294967296,
            ;
        }
        if mid * mid <= n {
            lo = mid;
        } else {
            hi = mid;
        }
    }
    proof {
        if lo > n {
            assert((lo as int) * (lo as int) > n as int) by (nonlinear_arith)
                requires
                    lo > n,
            ;
        }
    }
    lo
}

/// Smallest integer whose square is at least `n`.
pub fn isqrt64_ceil(n: u64) -> (r: u64)
    ensures
        (r as int) * (r as int) >= n,
        n >= 1 ==> r >= 1 && (r - 1) * (r - 1) < n,
        r * r <= n ==> r * r == n,
        r <= n,
        r == sqrt_cl_of(n as int),
{
    let f = isqrt64(n);
    if f * f == n {
        proof {
            if n >= 1 {
                assert(f >= 1 && (f - 1) * (f - 1) < n) by (nonlinear_arith)
                    requires
                        (f as int) * (f as int) == n as int,
                        n >= 1,
                ;
            }
        }
        f
    } else {
        proof {
            assert(f < n) by (nonlinear_arith)
                requires
                    (f as int) * (f as int) <= n as int,
                    (f as int) * (f as int) != n as int,
                    f <= n,
            ;
        }
        f + 1
    }
}

} // verus!
