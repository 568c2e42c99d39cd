//! The pairwise gravitational force model: inverse-square law in fixed
//! point, with the explicit zero-force policy for coincident positions.

use vstd::prelude::*;
use crate::math::{lemma_isqrt, lemma_tdiv_bound, tdiv, tdiv_i128};
use crate::units::{K_FORCE, MASS_MAX, POS_MAX, SCALE};
use crate::vector::{
    distance, lemma_component_le_distance, lemma_dist2_basics, spec_dist2, spec_distance,
    vec_in_range, Vector,
};

verus! {

/// The force scalar `G * m1 * m2 / d^2`, scaled by [`SCALE`], for a
/// distance `d` in sub-units: `K_FORCE * m1 * m2 / (d * d)`, rounded toward
/// zero.
pub open spec fn spec_force_scalar(m1: int, m2: int, d: int) -> int {
    tdiv(K_FORCE * m1 * m2, d * d)
}

/// One component of the gravitational force of the body at `c2` on the body
/// at `c1`: the force scalar times the normalized component difference,
/// `f * (c2 - c1) / d`, rounded toward zero.
pub open spec fn spec_force_comp(f: int, c1: int, c2: int, d: int) -> int {
    tdiv(f * (c2 - c1), d)
}

/// The gravitational force exerted on a body of mass `m1` at `p1` by a body
/// of mass `m2` at `p2`, as `(x, y, z)` components scaled by [`SCALE`].
/// Coincident positions yield the exact zero vector by policy.
pub open spec fn spec_grav_force(m1: int, m2: int, p1: Vector, p2: Vector) -> (int, int, int) {
    if spec_dist2(p1, p2) == 0 {
        (0, 0, 0)
    } else {
        let d = spec_distance(p1, p2);
        let f = spec_force_scalar(m1, m2, d);
        (
            spec_force_comp(f, p1.x as int, p2.x as int, d),
            spec_force_comp(f, p1.y as int, p2.y as int, d),
            spec_force_comp(f, p1.z as int, p2.z as int, d),
        )
    }
}

/// The force scalar is nonnegative and, multiplied back by `d * d` or by
/// anything smaller, stays below `K_FORCE * m1 * m2`.
pub proof fn lemma_force_scalar_bound(m1: int, m2: int, d: int)
    requires
        1 <= m1,
        1 <= m2,
        1 <= d,
    ensures
        0 <= spec_force_scalar(m1, m2, d),
        d * spec_force_scalar(m1, m2, d) <= K_FORCE * m1 * m2,
        spec_force_scalar(m1, m2, d) <= K_FORCE * m1 * m2,
{
    let num = K_FORCE * m1 * m2;
    assert(K_FORCE * m1 * m2 >= 1) by (nonlinear_arith)
        requires
            1 <= m1,
            1 <= m2,
            K_FORCE >= 1,
    ;
    assert(d * d >= 1) by (nonlinear_arith)
        requires
            1 <= d,
    ;
    lemma_tdiv_bound(num, d * d, num);
    let f = spec_force_scalar(m1, m2, d);
    assert(f >= 0) by {
        vstd::arithmetic::div_mod::lemma_div_pos_is_pos(num, d * d);
    }
    assert(d * f <= (d * d) * f) by (nonlinear_arith)
        requires
            d >= 1,
            f >= 0,
    ;
}

/// Every component of the pairwise force is bounded by
/// `K_FORCE * m1 * m2`, whatever the distance: close approaches cannot
/// blow a single term past that product.
pub proof fn lemma_grav_force_bound(m1: int, m2: int, p1: Vector, p2: Vector)
    requires
        1 <= m1,
        1 <= m2,
    ensures
        -(K_FORCE * m1 * m2) <= spec_grav_force(m1, m2, p1, p2).0 <= K_FORCE * m1 * m2,
        -(K_FORCE * m1 * m2) <= spec_grav_force(m1, m2, p1, p2).1 <= K_FORCE * m1 * m2,
        -(K_FORCE * m1 * m2) <= spec_grav_force(m1, m2, p1, p2).2 <= K_FORCE * m1 * m2,
{
    let num = K_FORCE * m1 * m2;
    assert(K_FORCE * m1 * m2 >= 1) by (nonlinear_arith)
        requires
            1 <= m1,
            1 <= m2,
            K_FORCE >= 1,
    ;
    if spec_dist2(p1, p2) == 0 {
    } else {
        lemma_dist2_basics(p1, p2);
        let d = spec_distance(p1, p2);
        lemma_isqrt(spec_dist2(p1, p2));
        assert(d >= 1);
        lemma_force_scalar_bound(m1, m2, d);
        let f = spec_force_scalar(m1, m2, d);
        lemma_component_le_distance(p1, p2);
        lemma_force_comp_bound(f, p1.x as int, p2.x as int, d, num);
        lemma_force_comp_bound(f, p1.y as int, p2.y as int, d, num);
        lemma_force_comp_bound(f, p1.z as int, p2.z as int, d, num);
    }
}

/// A force component `f * (c2 - c1) / d` with `|c2 - c1| <= d` and
/// `d * f <= num` stays within `[-num, num]`.
proof fn lemma_force_comp_bound(f: int, c1: int, c2: int, d: int, num: int)
    requires
        d >= 1,
        0 <= f,
        d * f <= num,
        -d <= c2 - c1 <= d,
    ensures
        -num <= spec_force_comp(f, c1, c2, d) <= num,
{
    assert(-(d * f) <= f * (c2 - c1) <= d * f) by (nonlinear_arith)
        requires
            d >= 1,
            0 <= f,
            -d <= c2 - c1 <= d,
    ;
    lemma_tdiv_bound(f * (c2 - c1), d, d * f);
}

/// The force scalar `G * m1 * m2 / d^2`, scaled by [`SCALE`], computed in
/// 128-bit integers.
pub fn force_scalar(m1: i64, m2: i64, d: i64) -> (f: i128)
    requires
        1 <= m1 <= MASS_MAX,
        1 <= m2 <= MASS_MAX,
        1 <= d,
    ensures
        f == spec_force_scalar(m1 as int, m2 as int, d as int),
        0 <= f,
        (d as int) * f <= K_FORCE * m1 * m2,
        f <= K_FORCE * m1 * m2,
{
    assert(1 <= (m1 as i128) * (m2 as i128) <= 100_000_000_000_000) by (nonlinear_arith)
        requires
            1 <= m1 <= MASS_MAX,
            1 <= m2 <= MASS_MAX,
    ;
    let m1m2: i128 = (m1 as i128) * (m2 as i128);
    assert(K_FORCE * ((m1 as int) * (m2 as int)) == K_FORCE * m1 * m2
        && 1 <= K_FORCE * ((m1 as int) * (m2 as int))
        <= 6_674_000_000_000_000_000_000_000_000_000_000) by (nonlinear_arith)
        requires
            1 <= (m1 as int) * (m2 as int) <= 100_000_000_000_000,
    ;
    let num: i128 = K_FORCE * m1m2;
    assert(1 <= (d as i128) * (d as i128) <= 85070591730234615865843651857942052864)
        by (nonlinear_arith)
        requires
            1 <= d <= i64::MAX,
    ;
    let dd: i128 = (d as i128) * (d as i128);
    let f = tdiv_i128(num, dd);
    proof {
        lemma_force_scalar_bound(m1 as int, m2 as int, d as int);
    }
    f
}

/// The gravitational force exerted on the first body by the second, as
/// fixed-point `(x, y, z)` components scaled by [`SCALE`]. Coincident
/// positions return the exact zero vector — never a division by zero.
pub fn gravitational_force(m1: i64, m2: i64, p1: &Vector, p2: &Vector) -> (r: (i128, i128, i128))
    requires
        1 <= m1 <= MASS_MAX,
        1 <= m2 <= MASS_MAX,
        vec_in_range(*p1, POS_MAX as int),
        vec_in_range(*p2, POS_MAX as int),
    ensures
        (r.0 as int, r.1 as int, r.2 as int) == spec_grav_force(m1 as int, m2 as int, *p1, *p2),
        *p1 == *p2 ==> r == (0i128, 0i128, 0i128),
        -(K_FORCE * m1 * m2) <= r.0 <= K_FORCE * m1 * m2,
        -(K_FORCE * m1 * m2) <= r.1 <= K_FORCE * m1 * m2,
        -(K_FORCE * m1 * m2) <= r.2 <= K_FORCE * m1 * m2,
{
    proof {
        lemma_grav_force_bound(m1 as int, m2 as int, *p1, *p2);
    }
    let d = distance(p1, p2);
    if d == 0 {
        proof {
            lemma_dist2_basics(*p1, *p2);
        }
        (0, 0, 0)
    } else {
        proof {
            lemma_dist2_basics(*p1, *p2);
        }
        let f = force_scalar(m1, m2, d);
        proof {
            lemma_component_le_distance(*p1, *p2);
            assert(1 <= K_FORCE * m1 * m2 <= 6_674_000_000_000_000_000_000_000_000_000_000)
                by (nonlinear_arith)
                requires
                    1 <= m1 <= MASS_MAX,
                    1 <= m2 <= MASS_MAX,
            ;
        }
        let fx = force_times_comp(f, p1.x, p2.x, d, Ghost(K_FORCE * m1 * m2));
        let fy = force_times_comp(f, p1.y, p2.y, d, Ghost(K_FORCE * m1 * m2));
        let fz = force_times_comp(f, p1.z, p2.z, d, Ghost(K_FORCE * m1 * m2));
        (fx, fy, fz)
    }
}

/// One component of `f * (c2 - c1) / d`, with the overflow argument that
/// `|c2 - c1| <= d` keeps the product under `num`.
fn force_times_comp(f: i128, c1: i64, c2: i64, d: i64, num: Ghost<int>) -> (r: i128)
    requires
        1 <= d,
        0 <= f,
        1 <= num@ <= 6_674_000_000_000_000_000_000_000_000_000_000,
        (d as int) * f <= num@,
        -d <= c2 - c1 <= d,
    ensures
        r == spec_force_comp(f as int, c1 as int, c2 as int, d as int),
        -num@ <= r <= num@,
{
    let dc: i128 = (c2 as i128) - (c1 as i128);
    assert(-num@ <= f * dc <= num@ && f * dc > i128::MIN) by (nonlinear_arith)
        requires
            1 <= d,
            0 <= f,
            (d as int) * f <= num@,
            num@ <= 6_674_000_000_000_000_000_000_000_000_000_000,
            -d <= dc <= d,
    ;
    let r = tdiv_i128(f * dc, d as i128);
    proof {
        lemma_force_comp_bound(f as int, c1 as int, c2 as int, d as int, num@);
    }
    r
}

/// A force vector from a fixed-point force scalar and a [`SCALE`]-scaled
/// direction: each component is `f * dir_c / SCALE`, which is exactly
/// [`Vector::scale`].
pub fn force_vector(f: i64, direction: &Vector) -> (r: Vector)
    requires
        i64::MIN < tdiv(direction.x * f, SCALE as int) <= i64::MAX,
        i64::MIN < tdiv(direction.y * f, SCALE as int) <= i64::MAX,
        i64::MIN < tdiv(direction.z * f, SCALE as int) <= i64::MAX,
    ensures
        r.x == tdiv(direction.x * f, SCALE as int),
        r.y == tdiv(direction.y * f, SCALE as int),
        r.z == tdiv(direction.z * f, SCALE as int),
{
    direction.scale(f)
}

} // verus!
