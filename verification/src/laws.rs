//! The laws of the engine, stated and proved over the same spec functions
//! that the executable functions' contracts use.

use vstd::prelude::*;
use crate::body::{is_anchor, is_destroyed, is_live, null_body, wf_bodies, Body};
use crate::force::spec_grav_force;
use crate::math::{isqrt, lemma_isqrt};
use crate::sim::{
    lemma_integrated_wf, lemma_resolve_wf, spec_advance, spec_hit_by_any, spec_integrated,
    spec_resolve, spec_step_body, spec_touching,
};
use crate::units::POS_MAX;
use crate::vector::{lemma_dist2_basics, spec_dist2, spec_distance, vec_in_range, Vector};

verus! {

/// Distance is symmetric, and the distance from a position to itself is
/// exactly zero.
pub proof fn lemma_distance_symmetric(a: Vector, b: Vector)
    ensures
        spec_distance(a, b) == spec_distance(b, a),
        spec_distance(a, a) == 0,
{
    lemma_dist2_basics(a, b);
    lemma_dist2_basics(a, a);
    assert(isqrt(0) == 0);
}

/// The zero-distance force policy: the gravitational force between two
/// bodies at identical positions is the exact zero vector, for any masses.
pub proof fn lemma_zero_distance_force(m1: int, m2: int, p: Vector)
    ensures
        spec_grav_force(m1, m2, p, p) == (0int, 0int, 0int),
{
    lemma_dist2_basics(p, p);
}

/// Anchor invariance: whatever the timestep and bound, the slot holding
/// the anchor body comes out of a step bit-identical — the anchor is never
/// integrated, culled, or destroyed by a collision.
pub proof fn lemma_anchor_invariant(bs: Seq<Body>, dt: int, bound: int, i: int)
    requires
        0 <= i < bs.len(),
        is_anchor(bs[i]),
    ensures
        spec_advance(bs, dt, bound)[i] == bs[i],
{
    let mid = spec_integrated(bs, dt, bound);
    assert(mid[i] == bs[i]);
    assert(spec_resolve(mid)[i] == bs[i]);
}

/// Tombstone permanence: a destroyed slot passes through a step unchanged
/// — it feels no force, is never revived, and stays a tombstone in every
/// subsequent generation.
pub proof fn lemma_tombstone_permanent(bs: Seq<Body>, dt: int, bound: int, i: int)
    requires
        0 <= i < bs.len(),
        is_destroyed(bs[i]),
    ensures
        spec_advance(bs, dt, bound)[i] == bs[i],
        is_destroyed(spec_advance(bs, dt, bound)[i]),
{
    let mid = spec_integrated(bs, dt, bound);
    assert(mid[i] == bs[i]);
    assert(spec_resolve(mid)[i] == bs[i]);
}

/// Id stability: a step never changes the length of the body list, and a
/// body that survives it keeps its id, mass and radius — only position and
/// velocity change.
pub proof fn lemma_id_stability(bs: Seq<Body>, dt: int, bound: int, i: int)
    requires
        wf_bodies(bs),
        0 <= bound <= POS_MAX,
        0 <= i < bs.len(),
    ensures
        spec_advance(bs, dt, bound).len() == bs.len(),
        !is_destroyed(spec_advance(bs, dt, bound)[i]) ==> spec_advance(bs, dt, bound)[i].id
            == bs[i].id && spec_advance(bs, dt, bound)[i].mass == bs[i].mass && spec_advance(
            bs,
            dt,
            bound,
        )[i].radius == bs[i].radius && !is_destroyed(bs[i]),
{
    let mid = spec_integrated(bs, dt, bound);
    lemma_integrated_wf(bs, dt, bound);
    lemma_resolve_wf(mid);
    let out = spec_advance(bs, dt, bound);
    if !is_destroyed(out[i]) {
        assert(out[i] == mid[i] || out[i] == null_body());
    }
}

/// Boundary culling exactness: a body that comes out of integration live
/// survives the boundary pass exactly when every coordinate's magnitude is
/// at most `bound` — a body at exactly `bound` on an axis is not culled,
/// one strictly beyond it is, on each axis independently.
pub proof fn lemma_boundary_exact(bs: Seq<Body>, dt: int, bound: int, i: int)
    requires
        0 <= i < bs.len(),
    ensures
        is_live(spec_step_body(bs, i, dt)) ==> spec_integrated(bs, dt, bound)[i] == (
        if vec_in_range(spec_step_body(bs, i, dt).position, bound) {
            spec_step_body(bs, i, dt)
        } else {
            null_body()
        }),
{
}

/// Collision threshold exactness, stated on the rounded-down distance:
/// two bodies collide exactly when the distance between their positions is
/// strictly below the sum of their radii; at exactly the sum they do not.
pub proof fn lemma_collision_threshold(a: Body, b: Body)
    requires
        a.radius >= 0,
        b.radius >= 0,
    ensures
        spec_touching(a, b) <==> spec_distance(a.position, b.position) < a.radius + b.radius,
{
    let n = spec_dist2(a.position, b.position);
    let r = isqrt(n);
    let s = a.radius + b.radius;
    lemma_dist2_basics(a.position, b.position);
    lemma_isqrt(n);
    assert(n < s * s ==> r < s) by (nonlinear_arith)
        requires
            r >= 0,
            s >= 0,
            r * r <= n,
    ;
    assert(r < s ==> n < s * s) by (nonlinear_arith)
        requires
            r >= 0,
            s >= 0,
            n < (r + 1) * (r + 1),
    ;
}

/// A collision destroys the second body of the tested ordering: when some
/// other non-destroyed body of the snapshot overlaps a live body, the
/// collision pass tombstones the latter.
pub proof fn lemma_collision_destroys(mid: Seq<Body>, i: int, j: int)
    requires
        0 <= i < mid.len(),
        0 <= j < mid.len(),
        i != j,
        !is_destroyed(mid[i]),
        is_live(mid[j]),
        spec_touching(mid[i], mid[j]),
    ensures
        is_destroyed(spec_resolve(mid)[j]),
{
    assert(spec_hit_by_any(mid, j));
}

/// Determinism: one step is a pure function of the body list, the
/// timestep and the bound. `update_all_bodies` ensures its result equals
/// `spec_advance` of its inputs, so two results computed from identical
/// inputs are identical.
pub proof fn lemma_advance_deterministic(
    bs: Seq<Body>,
    dt: int,
    bound: int,
    r1: Seq<Body>,
    r2: Seq<Body>,
)
    requires
        r1 == spec_advance(bs, dt, bound),
        r2 == spec_advance(bs, dt, bound),
    ensures
        r1 == r2,
{
}

} // verus!
