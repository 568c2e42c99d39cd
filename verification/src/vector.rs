//! Three-component fixed-point vectors: positions, velocities and the
//! Euclidean distance used by the force model and the collision tests.

use vstd::prelude::*;
use crate::math::{isqrt, isqrt_u128, lemma_isqrt, tdiv, tdiv_i128};
use crate::units::{POS_MAX, SCALE};

verus! {

/// An immutable three-component vector; each component is a fixed-point
/// number with [`SCALE`] sub-units per unit.
#[derive(Debug, Copy, Clone, PartialEq, Eq, Structural)]
pub struct Vector {
    pub x: i64,
    pub y: i64,
    pub z: i64,
}

/// The zero vector.
pub open spec fn zero_vector() -> Vector {
    Vector { x: 0, y: 0, z: 0 }
}

/// All three components lie within `[-m, m]`.
pub open spec fn vec_in_range(v: Vector, m: int) -> bool {
    &&& -m <= v.x <= m
    &&& -m <= v.y <= m
    &&& -m <= v.z <= m
}

/// The squared Euclidean distance between two positions, in squared
/// sub-units: exact integer arithmetic, no rounding.
pub open spec fn spec_dist2(a: Vector, b: Vector) -> int {
    (b.x - a.x) * (b.x - a.x) + (b.y - a.y) * (b.y - a.y) + (b.z - a.z) * (b.z - a.z)
}

/// The Euclidean distance between two positions, in sub-units, rounded
/// down to an integer.
pub open spec fn spec_distance(a: Vector, b: Vector) -> int {
    isqrt(spec_dist2(a, b))
}

/// A squared distance is nonnegative, and it is zero exactly for
/// coincident positions.
pub proof fn lemma_dist2_basics(a: Vector, b: Vector)
    ensures
        spec_dist2(a, b) >= 0,
        spec_dist2(a, b) == spec_dist2(b, a),
        spec_dist2(a, b) == 0 <==> (a.x == b.x && a.y == b.y && a.z == b.z),
{
    let dx = b.x - a.x;
    let dy = b.y - a.y;
    let dz = b.z - a.z;
    assert(dx * dx >= 0 && dy * dy >= 0 && dz * dz >= 0
        && dx * dx == (-dx) * (-dx) && dy * dy == (-dy) * (-dy) && dz * dz == (-dz) * (-dz)
        && (dx != 0 ==> dx * dx > 0) && (dy != 0 ==> dy * dy > 0) && (dz != 0 ==> dz * dz > 0))
        by (nonlinear_arith);
}

/// No component difference exceeds the rounded-down Euclidean distance.
pub proof fn lemma_component_le_distance(a: Vector, b: Vector)
    ensures
        -spec_distance(a, b) <= b.x - a.x <= spec_distance(a, b),
        -spec_distance(a, b) <= b.y - a.y <= spec_distance(a, b),
        -spec_distance(a, b) <= b.z - a.z <= spec_distance(a, b),
        spec_distance(a, b) >= 0,
{
    lemma_dist2_basics(a, b);
    let n = spec_dist2(a, b);
    let r = isqrt(n);
    lemma_isqrt(n);
    lemma_square_within(b.x - a.x, b.y - a.y, b.z - a.z, n, r);
}

/// If `dx^2 + dy^2 + dz^2 <= n < (r + 1)^2` with `r >= 0`, then each of
/// `dx`, `dy`, `dz` lies within `[-r, r]`.
proof fn lemma_square_within(dx: int, dy: int, dz: int, n: int, r: int)
    by (nonlinear_arith)
    requires
        r >= 0,
        dx * dx + dy * dy + dz * dz <= n,
        n < (r + 1) * (r + 1),
    ensures
        -r <= dx <= r,
        -r <= dy <= r,
        -r <= dz <= r,
{
}

/// An upper bound on coordinates gives an upper bound on the distance.
pub proof fn lemma_distance_upper_bound(a: Vector, b: Vector, m: int)
    requires
        m >= 0,
        vec_in_range(a, m),
        vec_in_range(b, m),
    ensures
        0 <= spec_dist2(a, b) <= 12 * m * m,
        0 <= spec_distance(a, b) <= 4 * m,
{
    lemma_dist2_basics(a, b);
    let n = spec_dist2(a, b);
    assert(n <= 12 * m * m) by (nonlinear_arith)
        requires
            n == (b.x - a.x) * (b.x - a.x) + (b.y - a.y) * (b.y - a.y) + (b.z - a.z) * (b.z - a.z),
            -m <= a.x <= m && -m <= a.y <= m && -m <= a.z <= m,
            -m <= b.x <= m && -m <= b.y <= m && -m <= b.z <= m,
    ;
    let r = isqrt(n);
    lemma_isqrt(n);
    assert(r <= 4 * m) by (nonlinear_arith)
        requires
            r >= 0,
            m >= 0,
            r * r <= n,
            n <= 12 * m * m,
    ;
}

impl Vector {
    /// Component-wise vector addition, the one algebraic operator the value
    /// type exposes publicly; force accumulation is a fold over it.
    pub fn add(self, other: Vector) -> (r: Vector)
        requires
            i64::MIN <= self.x + other.x <= i64::MAX,
            i64::MIN <= self.y + other.y <= i64::MAX,
            i64::MIN <= self.z + other.z <= i64::MAX,
        ensures
            r.x == self.x + other.x,
            r.y == self.y + other.y,
            r.z == self.z + other.z,
    {
        Vector { x: self.x + other.x, y: self.y + other.y, z: self.z + other.z }
    }

    /// Component-wise multiplication by a fixed-point scalar `s` (so the
    /// result is `self * s / SCALE`, rounded toward zero).
    pub fn scale(self, s: i64) -> (r: Vector)
        requires
            i64::MIN < tdiv(self.x * s, SCALE as int) <= i64::MAX,
            i64::MIN < tdiv(self.y * s, SCALE as int) <= i64::MAX,
            i64::MIN < tdiv(self.z * s, SCALE as int) <= i64::MAX,
        ensures
            r.x == tdiv(self.x * s, SCALE as int),
            r.y == tdiv(self.y * s, SCALE as int),
            r.z == tdiv(self.z * s, SCALE as int),
    {
        let x = tdiv_i128((self.x as i128) * (s as i128), SCALE as i128);
        let y = tdiv_i128((self.y as i128) * (s as i128), SCALE as i128);
        let z = tdiv_i128((self.z as i128) * (s as i128), SCALE as i128);
        Vector { x: x as i64, y: y as i64, z: z as i64 }
    }
}

/// Euclidean distance between two positions, in sub-units, rounded down:
/// `isqrt((b.x-a.x)^2 + (b.y-a.y)^2 + (b.z-a.z)^2)`. Zero exactly when the
/// positions coincide.
pub fn distance(a: &Vector, b: &Vector) -> (d: i64)
    requires
        vec_in_range(*a, POS_MAX as int),
        vec_in_range(*b, POS_MAX as int),
    ensures
        d == spec_distance(*a, *b),
        0 <= d <= 4 * POS_MAX,
        d == 0 <==> *a == *b,
{
    let dx = (b.x as i128) - (a.x as i128);
    let dy = (b.y as i128) - (a.y as i128);
    let dz = (b.z as i128) - (a.z as i128);
    proof {
        lemma_distance_upper_bound(*a, *b, POS_MAX as int);
    }
    assert(dx * dx + dy * dy + dz * dz == spec_dist2(*a, *b)
        && 0 <= dx * dx <= 160_000_000_000_000_000_000_000_000_000_000_000
        && 0 <= dy * dy <= 160_000_000_000_000_000_000_000_000_000_000_000
        && 0 <= dz * dz <= 160_000_000_000_000_000_000_000_000_000_000_000) by (nonlinear_arith)
        requires
            dx == b.x - a.x,
            dy == b.y - a.y,
            dz == b.z - a.z,
            -200_000_000_000_000_000 <= dx <= 200_000_000_000_000_000,
            -200_000_000_000_000_000 <= dy <= 200_000_000_000_000_000,
            -200_000_000_000_000_000 <= dz <= 200_000_000_000_000_000,
    ;
    let n: u128 = ((dx * dx) as u128) + ((dy * dy) as u128) + ((dz * dz) as u128);
    let r = isqrt_u128(n);
    proof {
        lemma_dist2_basics(*a, *b);
        lemma_isqrt(n as int);
        if isqrt(n as int) == 0 {
            let s = isqrt(n as int);
            assert((s + 1) * (s + 1) == 1) by (nonlinear_arith)
                requires
                    s == 0,
            ;
            assert(n == 0);
            assert(a.x == b.x && a.y == b.y && a.z == b.z);
            assert(*a == *b);
        }
        if *a == *b {
            assert(spec_dist2(*a, *b) == 0);
            assert(isqrt(0) == 0);
        }
    }
    r as i64
}

/// The unit vector from `a` toward `b`, scaled by [`SCALE`], given a
/// precomputed distance `d`; each component is `(b_c - a_c) * SCALE / d`,
/// rounded toward zero. The caller must guarantee `d > 0` and that `d` is
/// not smaller than any component difference (both hold of
/// [`spec_distance`], see [`lemma_component_le_distance`]).
pub fn direction(a: &Vector, b: &Vector, d: i64) -> (r: Vector)
    requires
        d >= 1,
        -d <= b.x - a.x <= d,
        -d <= b.y - a.y <= d,
        -d <= b.z - a.z <= d,
    ensures
        r.x == tdiv((b.x - a.x) * SCALE, d as int),
        r.y == tdiv((b.y - a.y) * SCALE, d as int),
        r.z == tdiv((b.z - a.z) * SCALE, d as int),
        vec_in_range(r, SCALE as int),
{
    let dx = (b.x as i128) - (a.x as i128);
    let dy = (b.y as i128) - (a.y as i128);
    let dz = (b.z as i128) - (a.z as i128);
    proof {
        lemma_direction_component_bound(dx as int, d as int);
        lemma_direction_component_bound(dy as int, d as int);
        lemma_direction_component_bound(dz as int, d as int);
    }
    let x = tdiv_i128(dx * (SCALE as i128), d as i128);
    let y = tdiv_i128(dy * (SCALE as i128), d as i128);
    let z = tdiv_i128(dz * (SCALE as i128), d as i128);
    Vector { x: x as i64, y: y as i64, z: z as i64 }
}

/// A component no larger than the distance normalizes to at most [`SCALE`].
proof fn lemma_direction_component_bound(c: int, d: int)
    requires
        d >= 1,
        -d <= c <= d,
    ensures
        -SCALE <= tdiv(c * SCALE, d) <= SCALE,
{
    assert(-(d * SCALE) <= c * SCALE <= d * SCALE) by (nonlinear_arith)
        requires
            -d <= c <= d,
            d >= 1,
    ;
    crate::math::lemma_tdiv_bound(c * SCALE, d, d * (SCALE as int));
    let q = tdiv(c * SCALE, d);
    assert(-SCALE <= q <= SCALE) by (nonlinear_arith)
        requires
            -(d * (SCALE as int)) <= d * q <= d * (SCALE as int),
            d >= 1,
    ;
}

} // verus!
