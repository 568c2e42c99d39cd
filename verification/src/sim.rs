//! The integrator and lifecycle manager: per-step force accumulation and
//! motion integration, boundary culling, collision resolution, and the
//! optional merge-on-collision policy.
//!
//! Each step is a pure function from one generation of the body list to the
//! next: every new body is derived from the same immutable snapshot of the
//! previous generation, then a boundary pass and a collision pass run over
//! the new snapshot, so the outcome is independent of iteration order.

use vstd::prelude::*;
use crate::body::{body_ok, is_anchor, is_destroyed, is_live, null_body, tombstone, wf_bodies, Body};
use crate::force::{gravitational_force, spec_grav_force};
use crate::math::{icbrt, icbrt_u128, lemma_icbrt_ordered, lemma_icbrt_unique, lemma_mul_mono_both, lemma_tdiv_bound, tdiv, tdiv_i128};
use crate::units::{DESTROYED, DT_MAX, K_FORCE, MASS_MAX, N_MAX, POS_MAX, SCALE, SOLAR, VEL_MAX};
use crate::vector::{vec_in_range, Vector};

verus! {

/// The net force on the body in slot `i`, folded over the first `k` slots:
/// the vector sum of the pairwise gravitational forces exerted by every
/// other non-destroyed body. A destroyed slot contributes nothing, and a
/// body exerts no force on itself.
pub open spec fn spec_net_force_upto(bs: Seq<Body>, i: int, k: int) -> (int, int, int)
    decreases k,
{
    if k <= 0 {
        (0, 0, 0)
    } else {
        let prev = spec_net_force_upto(bs, i, k - 1);
        let j = k - 1;
        if j == i || is_destroyed(bs[j]) {
            prev
        } else {
            let f = spec_grav_force(
                bs[i].mass as int,
                bs[j].mass as int,
                bs[i].position,
                bs[j].position,
            );
            (prev.0 + f.0, prev.1 + f.1, prev.2 + f.2)
        }
    }
}

/// The net force on the body in slot `i` from the whole snapshot.
pub open spec fn spec_net_force(bs: Seq<Body>, i: int) -> (int, int, int) {
    spec_net_force_upto(bs, i, bs.len() as int)
}

/// The acceleration of the body in slot `i`: each component of the net
/// force divided by the body's mass, rounded toward zero.
pub open spec fn spec_accel(bs: Seq<Body>, i: int) -> (int, int, int) {
    let f = spec_net_force(bs, i);
    (tdiv(f.0, bs[i].mass as int), tdiv(f.1, bs[i].mass as int), tdiv(f.2, bs[i].mass as int))
}

/// One position component after a step: `s + v * dt + a * dt^2 / 2` in
/// fixed point, each product truncated toward zero after rescaling.
pub open spec fn spec_pos_comp(s: int, v: int, a: int, dt: int) -> int {
    s + tdiv(v * dt, SCALE as int) + tdiv(a * dt * dt, 2 * (SCALE as int) * (SCALE as int))
}

/// What the integration pass does to slot `i`: a tombstone stays a
/// tombstone; the anchor is exempt and returned unchanged; a live body gets
/// velocity `v + a` and position `s + v * dt + a * dt^2 / 2` with the same
/// id, mass and radius — unless the new velocity or position leaves the
/// representable fixed-point domain, in which case the body has escaped and
/// becomes a tombstone.
pub open spec fn spec_step_body(bs: Seq<Body>, i: int, dt: int) -> Body {
    let b = bs[i];
    if is_destroyed(b) || is_anchor(b) {
        b
    } else {
        let acc = spec_accel(bs, i);
        let nvx = b.velocity.x + acc.0;
        let nvy = b.velocity.y + acc.1;
        let nvz = b.velocity.z + acc.2;
        if !(-VEL_MAX <= nvx <= VEL_MAX && -VEL_MAX <= nvy <= VEL_MAX && -VEL_MAX <= nvz
            <= VEL_MAX) {
            null_body()
        } else {
            let npx = spec_pos_comp(b.position.x as int, b.velocity.x as int, acc.0, dt);
            let npy = spec_pos_comp(b.position.y as int, b.velocity.y as int, acc.1, dt);
            let npz = spec_pos_comp(b.position.z as int, b.velocity.z as int, acc.2, dt);
            if !(-POS_MAX <= npx <= POS_MAX && -POS_MAX <= npy <= POS_MAX && -POS_MAX <= npz
                <= POS_MAX) {
                null_body()
            } else {
                Body {
                    id: b.id,
                    mass: b.mass,
                    radius: b.radius,
                    position: Vector { x: npx as i64, y: npy as i64, z: npz as i64 },
                    velocity: Vector { x: nvx as i64, y: nvy as i64, z: nvz as i64 },
                }
            }
        }
    }
}

/// The boundary cull: a live body with any coordinate of magnitude
/// strictly above `bound` has escaped the domain and becomes a tombstone.
/// A coordinate exactly at `bound` stays. The anchor is never culled.
pub open spec fn spec_cull(b: Body, bound: int) -> Body {
    if is_live(b) && !vec_in_range(b.position, bound) {
        null_body()
    } else {
        b
    }
}

/// The integration and boundary passes applied to every slot.
pub open spec fn spec_integrated(bs: Seq<Body>, dt: int, bound: int) -> Seq<Body> {
    Seq::new(bs.len(), |i: int| spec_cull(spec_step_body(bs, i, dt), bound))
}

/// Two bodies overlap when the distance between their positions is
/// strictly below the sum of their radii; at exactly the sum they touch
/// and do not collide. Stated on squares, which is exact for integers.
pub open spec fn spec_touching(a: Body, b: Body) -> bool {
    crate::vector::spec_dist2(a.position, b.position) < (a.radius + b.radius) * (a.radius
        + b.radius)
}

/// Some other non-destroyed body of the snapshot overlaps body `j`.
pub open spec fn spec_hit_by_any(mid: Seq<Body>, j: int) -> bool {
    exists|i: int|
        0 <= i < mid.len() && i != j && !is_destroyed(mid[i]) && spec_touching(mid[i], mid[j])
}

/// The collision pass: every live body that overlaps another non-destroyed
/// body of the same consistent snapshot is tombstoned (the destructive,
/// mass-discarding baseline policy). The anchor can destroy bodies that
/// fall into it but is itself never destroyed.
pub open spec fn spec_resolve(mid: Seq<Body>) -> Seq<Body> {
    Seq::new(
        mid.len(),
        |j: int|
            if is_live(mid[j]) && spec_hit_by_any(mid, j) {
                null_body()
            } else {
                mid[j]
            },
    )
}

/// One full timestep: integrate every body against the previous snapshot,
/// cull escapees, then resolve collisions on the new snapshot.
pub open spec fn spec_advance(bs: Seq<Body>, dt: int, bound: int) -> Seq<Body> {
    spec_resolve(spec_integrated(bs, dt, bound))
}

/// After integration and culling, a slot is either a tombstone or a well-
/// formed body that keeps the id, mass and radius it had in the previous
/// generation.
pub proof fn lemma_step_slot_ok(bs: Seq<Body>, i: int, dt: int, bound: int)
    requires
        wf_bodies(bs),
        0 <= i < bs.len(),
        0 <= bound <= POS_MAX,
    ensures
        body_ok(spec_cull(spec_step_body(bs, i, dt), bound)),
        is_destroyed(spec_cull(spec_step_body(bs, i, dt), bound)) || (spec_cull(
            spec_step_body(bs, i, dt),
            bound,
        ).id == bs[i].id && spec_cull(spec_step_body(bs, i, dt), bound).mass == bs[i].mass
            && spec_cull(spec_step_body(bs, i, dt), bound).radius == bs[i].radius && !is_destroyed(
            bs[i],
        )),
{
    assert(body_ok(bs[i]));
}

/// The integration and boundary passes preserve well-formedness, slot
/// count, and the identity of every surviving body.
pub proof fn lemma_integrated_wf(bs: Seq<Body>, dt: int, bound: int)
    requires
        wf_bodies(bs),
        0 <= bound <= POS_MAX,
    ensures
        spec_integrated(bs, dt, bound).len() == bs.len(),
        wf_bodies(spec_integrated(bs, dt, bound)),
        forall|i: int|
            0 <= i < bs.len() && !is_destroyed(#[trigger] spec_integrated(bs, dt, bound)[i])
                ==> spec_integrated(bs, dt, bound)[i].id == bs[i].id && spec_integrated(
                bs,
                dt,
                bound,
            )[i].mass == bs[i].mass && spec_integrated(bs, dt, bound)[i].radius == bs[i].radius
                && !is_destroyed(bs[i]),
{
    let mid = spec_integrated(bs, dt, bound);
    assert forall|i: int| 0 <= i < bs.len() implies body_ok(#[trigger] mid[i]) && (is_destroyed(
        mid[i],
    ) || (mid[i].id == bs[i].id && mid[i].mass == bs[i].mass && mid[i].radius == bs[i].radius
        && !is_destroyed(bs[i]))) by {
        lemma_step_slot_ok(bs, i, dt, bound);
    }
    assert forall|i: int, j: int|
        #![trigger mid[i], mid[j]]
        0 <= i < mid.len() && 0 <= j < mid.len() && i != j && !is_destroyed(mid[i])
            && !is_destroyed(mid[j]) implies mid[i].id != mid[j].id by {
        assert(bs[i].id != bs[j].id);
    }
}

/// The collision pass preserves well-formedness and slot count, and leaves
/// every slot either untouched or a tombstone.
pub proof fn lemma_resolve_wf(mid: Seq<Body>)
    requires
        wf_bodies(mid),
    ensures
        spec_resolve(mid).len() == mid.len(),
        wf_bodies(spec_resolve(mid)),
        forall|j: int|
            0 <= j < mid.len() ==> #[trigger] spec_resolve(mid)[j] == mid[j] || spec_resolve(
                mid,
            )[j] == null_body(),
{
    let out = spec_resolve(mid);
    assert forall|i: int, j: int|
        #![trigger out[i], out[j]]
        0 <= i < out.len() && 0 <= j < out.len() && i != j && !is_destroyed(out[i])
            && !is_destroyed(out[j]) implies out[i].id != out[j].id by {
        assert(out[i] == mid[i] && out[j] == mid[j]);
        assert(mid[i].id != mid[j].id);
    }
}

/// Exact collision test on one consistent snapshot: true when the distance
/// between the two positions is strictly below the sum of the radii
/// (compared on squares, so a pair at exactly the sum does not collide).
pub fn bodies_touching(a: &Body, b: &Body) -> (r: bool)
    requires
        body_ok(*a),
        body_ok(*b),
    ensures
        r == spec_touching(*a, *b),
{
    let dx = (b.position.x as i128) - (a.position.x as i128);
    let dy = (b.position.y as i128) - (a.position.y as i128);
    let dz = (b.position.z as i128) - (a.position.z as i128);
    assert(dx * dx + dy * dy + dz * dz == crate::vector::spec_dist2(a.position, b.position)
        && 0 <= dx * dx <= 160_000_000_000_000_000_000_000_000_000_000_000
        && 0 <= dy * dy <= 160_000_000_000_000_000_000_000_000_000_000_000
        && 0 <= dz * dz <= 160_000_000_000_000_000_000_000_000_000_000_000) by (nonlinear_arith)
        requires
            dx == b.position.x - a.position.x,
            dy == b.position.y - a.position.y,
            dz == b.position.z - a.position.z,
            -200_000_000_000_000_000 <= dx <= 200_000_000_000_000_000,
            -200_000_000_000_000_000 <= dy <= 200_000_000_000_000_000,
            -200_000_000_000_000_000 <= dz <= 200_000_000_000_000_000,
    ;
    let d2: i128 = dx * dx + dy * dy + dz * dz;
    let rsum: i64 = a.radius + b.radius;
    assert(0 <= (rsum as i128) * (rsum as i128) <= 4_000_000_000_000_000_000_000_000)
        by (nonlinear_arith)
        requires
            0 <= rsum <= 2_000_000_000_000,
    ;
    let rsq: i128 = (rsum as i128) * (rsum as i128);
    d2 < rsq
}

/// Integrate the motion of the body in slot `idx` against the snapshot
/// `bodies`: accumulate the net gravitational force from every other
/// non-destroyed body, derive the acceleration, and apply one semi-implicit
/// Euler step. Tombstones and the anchor are returned unchanged; a body
/// whose new state leaves the representable domain becomes a tombstone.
pub fn update_positions(bodies: &Vec<Body>, idx: usize, timestep: i64) -> (b: Body)
    requires
        wf_bodies(bodies@),
        bodies@.len() <= N_MAX,
        idx < bodies@.len(),
        0 <= timestep <= DT_MAX,
    ensures
        b == spec_step_body(bodies@, idx as int, timestep as int),
{
    let this_body = bodies[idx];
    if this_body.id == DESTROYED || this_body.id == SOLAR {
        return this_body;
    }
    let ghost gmi: int = this_body.mass as int;
    let ghost fb: int = K_FORCE * gmi * (MASS_MAX as int);
    proof {
        assert(body_ok(bodies@[idx as int]));
        assert(0 <= fb <= 6_674_000_000_000_000_000_000_000_000_000_000) by (nonlinear_arith)
            requires
                1 <= gmi <= MASS_MAX,
                MASS_MAX == 10_000_000,
                K_FORCE == 66_740_000_000_000_000_000,
                fb == K_FORCE * gmi * (MASS_MAX as int),
        ;
    }
    let n = bodies.len();
    let mut fx: i128 = 0;
    let mut fy: i128 = 0;
    let mut fz: i128 = 0;
    let mut j: usize = 0;
    while j < n
        invariant
            n == bodies@.len(),
            n <= N_MAX,
            0 <= j <= n,
            wf_bodies(bodies@),
            idx < n,
            this_body == bodies@[idx as int],
            !is_destroyed(this_body),
            !is_anchor(this_body),
            gmi == this_body.mass as int,
            1 <= gmi <= MASS_MAX,
            fb == K_FORCE * gmi * (MASS_MAX as int),
            0 <= fb <= 6_674_000_000_000_000_000_000_000_000_000_000,
            (fx as int, fy as int, fz as int) == spec_net_force_upto(bodies@, idx as int, j as int),
            -((j as int) * fb) <= fx as int <= (j as int) * fb,
            -((j as int) * fb) <= fy as int <= (j as int) * fb,
            -((j as int) * fb) <= fz as int <= (j as int) * fb,
        decreases n - j,
    {
        proof {
            lemma_mul_mono_both(j as int, fb, N_MAX as int, 6_674_000_000_000_000_000_000_000_000_000_000);
            assert((j as int) * fb + fb == (j as int + 1) * fb) by (nonlinear_arith);
        }
        if j != idx && bodies[j].id != DESTROYED {
            let other = bodies[j];
            proof {
                assert(body_ok(bodies@[j as int]));
                assert(K_FORCE * gmi >= 0) by (nonlinear_arith)
                    requires
                        K_FORCE >= 0,
                        gmi >= 1,
                ;
                assert((K_FORCE * gmi) * (other.mass as int) == K_FORCE * gmi * (other.mass as int)
                    && (K_FORCE * gmi) * (MASS_MAX as int) == K_FORCE * gmi * (MASS_MAX as int))
                    by (nonlinear_arith);
                lemma_mul_mono_both(K_FORCE * gmi, other.mass as int, K_FORCE * gmi, MASS_MAX as int);
            }
            let f = gravitational_force(
                this_body.mass,
                other.mass,
                &this_body.position,
                &other.position,
            );
            fx = fx + f.0;
            fy = fy + f.1;
            fz = fz + f.2;
        }
        j = j + 1;
    }
    proof {
        lemma_mul_mono_both(n as int, fb, N_MAX as int, 6_674_000_000_000_000_000_000_000_000_000_000);
        lemma_tdiv_bound(fx as int, gmi, (n as int) * fb);
        lemma_tdiv_bound(fy as int, gmi, (n as int) * fb);
        lemma_tdiv_bound(fz as int, gmi, (n as int) * fb);
    }
    let ax = tdiv_i128(fx, this_body.mass as i128);
    let ay = tdiv_i128(fy, this_body.mass as i128);
    let az = tdiv_i128(fz, this_body.mass as i128);
    let nvx: i128 = (this_body.velocity.x as i128) + ax;
    let nvy: i128 = (this_body.velocity.y as i128) + ay;
    let nvz: i128 = (this_body.velocity.z as i128) + az;
    if nvx < -VEL_MAX as i128 || nvx > VEL_MAX as i128 || nvy < -VEL_MAX as i128 || nvy
        > VEL_MAX as i128 || nvz < -VEL_MAX as i128 || nvz > VEL_MAX as i128 {
        return tombstone();
    }
    let dt: i128 = timestep as i128;
    let half_scale2: i128 = 2 * (SCALE as i128) * (SCALE as i128);
    let npx = pos_comp(this_body.position.x, this_body.velocity.x, ax, dt, half_scale2);
    let npy = pos_comp(this_body.position.y, this_body.velocity.y, ay, dt, half_scale2);
    let npz = pos_comp(this_body.position.z, this_body.velocity.z, az, dt, half_scale2);
    if npx < -POS_MAX as i128 || npx > POS_MAX as i128 || npy < -POS_MAX as i128 || npy
        > POS_MAX as i128 || npz < -POS_MAX as i128 || npz > POS_MAX as i128 {
        return tombstone();
    }
    Body {
        id: this_body.id,
        mass: this_body.mass,
        radius: this_body.radius,
        position: Vector { x: npx as i64, y: npy as i64, z: npz as i64 },
        velocity: Vector { x: nvx as i64, y: nvy as i64, z: nvz as i64 },
    }
}

/// One component of the kinematic position update
/// `s + v * dt + a * dt^2 / 2`, in 128-bit fixed point.
fn pos_comp(s: i64, v: i64, a: i128, dt: i128, half_scale2: i128) -> (r: i128)
    requires
        -VEL_MAX <= v <= VEL_MAX,
        -200_000_000_000_000_000 <= a <= 200_000_000_000_000_000,
        0 <= dt <= DT_MAX,
        half_scale2 == 2 * (SCALE as int) * (SCALE as int),
    ensures
        r == spec_pos_comp(s as int, v as int, a as int, dt as int),
{
    assert(-1_000_000_000_000_000_000_000_000_000 <= (v as int) * (dt as int)
        <= 1_000_000_000_000_000_000_000_000_000) by (nonlinear_arith)
        requires
            -VEL_MAX <= v <= VEL_MAX,
            VEL_MAX == 100_000_000_000_000_000,
            0 <= dt <= 10_000_000_000,
    ;
    let t1 = tdiv_i128((v as i128) * dt, SCALE as i128);
    assert(-2_000_000_000_000_000_000_000_000_000 <= (a as int) * (dt as int)
        <= 2_000_000_000_000_000_000_000_000_000
        && -20_000_000_000_000_000_000_000_000_000_000_000_000 <= (a as int) * (dt as int) * (
    dt as int) <= 20_000_000_000_000_000_000_000_000_000_000_000_000) by (nonlinear_arith)
        requires
            -200_000_000_000_000_000 <= a <= 200_000_000_000_000_000,
            0 <= dt <= 10_000_000_000,
    ;
    let t2 = tdiv_i128(a * dt * dt, half_scale2);
    proof {
        lemma_tdiv_bound((v as int) * (dt as int), SCALE as int, 1_000_000_000_000_000_000_000_000_000);
        assert(-10_000_000_000_000_000_000 <= t1 <= 10_000_000_000_000_000_000) by (nonlinear_arith)
            requires
                -1_000_000_000_000_000_000_000_000_000 <= (SCALE as int) * (t1 as int)
                    <= 1_000_000_000_000_000_000_000_000_000,
                SCALE == 100_000_000,
        ;
        lemma_tdiv_bound(
            (a as int) * (dt as int) * (dt as int),
            2 * (SCALE as int) * (SCALE as int),
            20_000_000_000_000_000_000_000_000_000_000_000_000,
        );
        assert(-1_000_000_000_000_000_000_000 <= t2 <= 1_000_000_000_000_000_000_000)
            by (nonlinear_arith)
            requires
                -20_000_000_000_000_000_000_000_000_000_000_000_000 <= (2 * (SCALE as int) * (
                SCALE as int)) * (t2 as int) <= 20_000_000_000_000_000_000_000_000_000_000_000_000,
                SCALE == 100_000_000,
        ;
    }
    (s as i128) + t1 + t2
}

/// Advance the whole simulation by one timestep: the public driving
/// operation, a pure function from one generation of the body list to the
/// next. Every body is integrated against the same immutable snapshot of
/// the previous generation ([`update_positions`]); a live body whose new
/// position leaves the cubic domain of half-extent `bound` is tombstoned;
/// then all collisions are detected on the new snapshot at once and every
/// live body overlapping another non-destroyed body is tombstoned.
/// Tombstones keep their slots, so indices are stable across generations.
pub fn update_all_bodies(bodies: &Vec<Body>, timestep: i64, bound: i64) -> (r: Vec<Body>)
    requires
        wf_bodies(bodies@),
        bodies@.len() <= N_MAX,
        0 <= timestep <= DT_MAX,
        0 <= bound <= POS_MAX,
    ensures
        r@ == spec_advance(bodies@, timestep as int, bound as int),
        r@.len() == bodies@.len(),
        wf_bodies(r@),
{
    let n = bodies.len();
    let ghost gmid = spec_integrated(bodies@, timestep as int, bound as int);
    proof {
        lemma_integrated_wf(bodies@, timestep as int, bound as int);
    }
    let mut mid: Vec<Body> = Vec::new();
    let mut i: usize = 0;
    while i < n
        invariant
            n == bodies@.len(),
            n <= N_MAX,
            i <= n,
            wf_bodies(bodies@),
            0 <= timestep <= DT_MAX,
            0 <= bound <= POS_MAX,
            gmid == spec_integrated(bodies@, timestep as int, bound as int),
            mid@.len() == i as int,
            forall|k: int| 0 <= k < i as int ==> mid@[k] == gmid[k],
        decreases n - i,
    {
        let stepped = update_positions(bodies, i, timestep);
        let culled: Body;
        if stepped.id != DESTROYED && stepped.id != SOLAR {
            let p = stepped.position;
            if p.x > bound || p.x < -bound || p.y > bound || p.y < -bound || p.z > bound || p.z
                < -bound {
                culled = tombstone();
            } else {
                culled = stepped;
            }
        } else {
            culled = stepped;
        }
        proof {
            assert(culled == spec_cull(spec_step_body(bodies@, i as int, timestep as int), bound as int));
            assert(culled == gmid[i as int]);
        }
        mid.push(culled);
        i = i + 1;
    }
    proof {
        assert(mid@ =~= gmid);
    }
    let ghost gout = spec_resolve(gmid);
    proof {
        lemma_resolve_wf(gmid);
    }
    let mut result: Vec<Body> = Vec::new();
    let mut j: usize = 0;
    while j < n
        invariant
            n == mid@.len(),
            j <= n,
            wf_bodies(mid@),
            gout == spec_resolve(mid@),
            result@.len() == j as int,
            forall|k: int| 0 <= k < j as int ==> result@[k] == gout[k],
        decreases n - j,
    {
        let mj = mid[j];
        proof {
            assert(body_ok(mid@[j as int]));
        }
        if mj.id != DESTROYED && mj.id != SOLAR {
            let mut hit = false;
            let mut t: usize = 0;
            while t < n
                invariant
                    n == mid@.len(),
                    t <= n,
                    j < n,
                    wf_bodies(mid@),
                    mj == mid@[j as int],
                    hit == exists|u: int|
                        0 <= u < t as int && u != j as int && !is_destroyed(#[trigger] mid@[u])
                            && spec_touching(mid@[u], mid@[j as int]),
                decreases n - t,
            {
                if t != j {
                    let mt = mid[t];
                    if mt.id != DESTROYED {
                        proof {
                            assert(body_ok(mid@[t as int]));
                        }
                        if bodies_touching(&mt, &mj) {
                            hit = true;
                            proof {
                                assert(t as int != j as int && !is_destroyed(mid@[t as int])
                                    && spec_touching(mid@[t as int], mid@[j as int]));
                            }
                        }
                    }
                }
                t = t + 1;
            }
            proof {
                assert(hit == spec_hit_by_any(mid@, j as int));
            }
            if hit {
                result.push(tombstone());
            } else {
                result.push(mj);
            }
        } else {
            result.push(mj);
        }
        proof {
            assert(result@[j as int] == gout[j as int]);
        }
        j = j + 1;
    }
    proof {
        assert(result@ =~= gout);
    }
    result
}


/// The merge of two colliding bodies (the optional, mass- and momentum-
/// conserving collision policy): mass sums linearly, the radius is that of
/// a sphere with the combined volume (`cbrt(r1^3 + r2^3)`), the velocity is
/// the mass-weighted average (conserving momentum), and the position is
/// the simple midpoint — a deliberate simplification, not a center-of-mass
/// computation. The merged body keeps the first body's id.
pub open spec fn spec_merge(b1: Body, b2: Body) -> Body {
    let m = b1.mass + b2.mass;
    Body {
        id: b1.id,
        mass: m as i64,
        radius: icbrt(
            b1.radius * b1.radius * b1.radius + b2.radius * b2.radius * b2.radius,
        ) as i64,
        position: Vector {
            x: tdiv(b1.position.x + b2.position.x, 2) as i64,
            y: tdiv(b1.position.y + b2.position.y, 2) as i64,
            z: tdiv(b1.position.z + b2.position.z, 2) as i64,
        },
        velocity: Vector {
            x: tdiv(b1.mass * b1.velocity.x + b2.mass * b2.velocity.x, m) as i64,
            y: tdiv(b1.mass * b1.velocity.y + b2.mass * b2.velocity.y, m) as i64,
            z: tdiv(b1.mass * b1.velocity.z + b2.mass * b2.velocity.z, m) as i64,
        },
    }
}

/// One component of the mass-weighted average velocity of a merge:
/// `(m1 * v1 + m2 * v2) / (m1 + m2)`, rounded toward zero. The result
/// stays within the velocity range of its inputs.
fn merge_vel_comp(m1: i64, v1: i64, m2: i64, v2: i64) -> (r: i64)
    requires
        1 <= m1,
        1 <= m2,
        m1 + m2 <= MASS_MAX,
        -VEL_MAX <= v1 <= VEL_MAX,
        -VEL_MAX <= v2 <= VEL_MAX,
    ensures
        r == tdiv(m1 * v1 + m2 * v2, m1 + m2),
        -VEL_MAX <= r <= VEL_MAX,
{
    assert(-1_000_000_000_000_000_000_000_000 <= (m1 as int) * (v1 as int)
        <= 1_000_000_000_000_000_000_000_000 && -1_000_000_000_000_000_000_000_000 <= (m2 as int)
        * (v2 as int) <= 1_000_000_000_000_000_000_000_000 && -((m1 + m2) * (VEL_MAX as int)) <= (
    m1 as int) * (v1 as int) + (m2 as int) * (v2 as int) <= (m1 + m2) * (VEL_MAX as int) && (m1
        + m2) * (VEL_MAX as int) <= 1_000_000_000_000_000_000_000_000) by (nonlinear_arith)
        requires
            1 <= m1,
            1 <= m2,
            m1 + m2 <= MASS_MAX,
            MASS_MAX == 10_000_000,
            VEL_MAX == 100_000_000_000_000_000,
            -VEL_MAX <= v1 <= VEL_MAX,
            -VEL_MAX <= v2 <= VEL_MAX,
    ;
    let num: i128 = (m1 as i128) * (v1 as i128) + (m2 as i128) * (v2 as i128);
    let q = tdiv_i128(num, (m1 + m2) as i128);
    proof {
        lemma_tdiv_bound(num as int, (m1 + m2) as int, (m1 + m2) * (VEL_MAX as int));
        assert(-VEL_MAX <= q <= VEL_MAX) by (nonlinear_arith)
            requires
                -((m1 + m2) * (VEL_MAX as int)) <= (m1 + m2) * (q as int) <= (m1 + m2) * (
                VEL_MAX as int),
                1 <= m1 + m2,
        ;
    }
    q as i64
}

/// Merge the bodies in slots `idx1` and `idx2` into a single body at
/// `idx1`, tombstoning `idx2`: the alternate, conserving collision policy
/// (see [`spec_merge`]). All other slots are untouched, so indices stay
/// stable. The combined mass and combined volume must stay within the
/// machine limits of the representation.
pub fn model_collisions(bodies: &Vec<Body>, idx1: usize, idx2: usize) -> (r: Vec<Body>)
    requires
        wf_bodies(bodies@),
        idx1 < bodies@.len(),
        idx2 < bodies@.len(),
        idx1 != idx2,
        !is_destroyed(bodies@[idx1 as int]),
        !is_destroyed(bodies@[idx2 as int]),
        bodies@[idx1 as int].mass + bodies@[idx2 as int].mass <= MASS_MAX,
        bodies@[idx1 as int].radius * bodies@[idx1 as int].radius * bodies@[idx1 as int].radius
            + bodies@[idx2 as int].radius * bodies@[idx2 as int].radius * bodies@[idx2 as int].radius
            <= 1_000_000_000_000_000_000_000_000_000_000_000_000,
    ensures
        r@ == bodies@.update(idx2 as int, null_body()).update(
            idx1 as int,
            spec_merge(bodies@[idx1 as int], bodies@[idx2 as int]),
        ),
        r@.len() == bodies@.len(),
        wf_bodies(r@),
{
    let first_body = bodies[idx1];
    let second_body = bodies[idx2];
    proof {
        assert(body_ok(bodies@[idx1 as int]));
        assert(body_ok(bodies@[idx2 as int]));
    }
    // Combined radius from conservation of volume: the 4/3*pi factors of
    // the two sphere volumes cancel against the one of the result, leaving
    // the cube root of the summed cubes.
    let r1: u128 = first_body.radius as u128;
    let r2: u128 = second_body.radius as u128;
    assert(1 <= r1 * r1 * r1 <= 1_000_000_000_000_000_000_000_000_000_000_000_000
        && 1 <= r2 * r2 * r2 <= 1_000_000_000_000_000_000_000_000_000_000_000_000
        && 1 <= r1 * r1 && 1 <= r2 * r2
        && r1 * r1 <= 1_000_000_000_000_000_000_000_000
        && r2 * r2 <= 1_000_000_000_000_000_000_000_000) by (nonlinear_arith)
        requires
            1 <= r1 <= 1_000_000_000_000,
            1 <= r2 <= 1_000_000_000_000,
    ;
    let total_vol: u128 = r1 * r1 * r1 + r2 * r2 * r2;
    let final_radius_u = icbrt_u128(total_vol);
    proof {
        lemma_icbrt_ordered(1, total_vol as int);
        lemma_icbrt_unique(1, 1);
        lemma_icbrt_ordered(total_vol as int, 1_000_000_000_000_000_000_000_000_000_000_000_000);
        assert((1_000_000_000_000int) * (1_000_000_000_000int) * (1_000_000_000_000int)
            <= 1_000_000_000_000_000_000_000_000_000_000_000_000
            < (1_000_000_000_001int) * (1_000_000_000_001int) * (1_000_000_000_001int))
            by (nonlinear_arith);
        lemma_icbrt_unique(1_000_000_000_000_000_000_000_000_000_000_000_000, 1_000_000_000_000);
    }
    let final_radius: i64 = final_radius_u as i64;
    // Combined mass.
    let mass: i64 = first_body.mass + second_body.mass;
    // Momentum-conserving velocity.
    let vel = Vector {
        x: merge_vel_comp(first_body.mass, first_body.velocity.x, second_body.mass, second_body.velocity.x),
        y: merge_vel_comp(first_body.mass, first_body.velocity.y, second_body.mass, second_body.velocity.y),
        z: merge_vel_comp(first_body.mass, first_body.velocity.z, second_body.mass, second_body.velocity.z),
    };
    // Midpoint position.
    let px = tdiv_i128((first_body.position.x as i128) + (second_body.position.x as i128), 2);
    let py = tdiv_i128((first_body.position.y as i128) + (second_body.position.y as i128), 2);
    let pz = tdiv_i128((first_body.position.z as i128) + (second_body.position.z as i128), 2);
    proof {
        lemma_tdiv_bound(
            (first_body.position.x as int) + (second_body.position.x as int),
            2,
            2 * (POS_MAX as int),
        );
        lemma_tdiv_bound(
            (first_body.position.y as int) + (second_body.position.y as int),
            2,
            2 * (POS_MAX as int),
        );
        lemma_tdiv_bound(
            (first_body.position.z as int) + (second_body.position.z as int),
            2,
            2 * (POS_MAX as int),
        );
    }
    let merged = Body {
        id: first_body.id,
        mass: mass,
        radius: final_radius,
        position: Vector { x: px as i64, y: py as i64, z: pz as i64 },
        velocity: vel,
    };
    let mut result: Vec<Body> = Vec::new();
    let n = bodies.len();
    let mut k: usize = 0;
    while k < n
        invariant
            n == bodies@.len(),
            k <= n,
            result@.len() == k as int,
            forall|t: int| 0 <= t < k as int ==> result@[t] == bodies@[t],
        decreases n - k,
    {
        result.push(bodies[k]);
        k = k + 1;
    }
    result.set(idx2, tombstone());
    result.set(idx1, merged);
    proof {
        let b1 = bodies@[idx1 as int];
        let b2 = bodies@[idx2 as int];
        let target = bodies@.update(idx2 as int, null_body()).update(idx1 as int, spec_merge(b1, b2));
        assert(merged == spec_merge(b1, b2));
        assert(result@ =~= target);
        assert(body_ok(merged));
        assert forall|i: int, j: int|
            #![trigger result@[i], result@[j]]
            0 <= i < result@.len() && 0 <= j < result@.len() && i != j && !is_destroyed(
                result@[i],
            ) && !is_destroyed(result@[j]) implies result@[i].id != result@[j].id by {
            assert(result@[i].id == bodies@[i].id && !is_destroyed(bodies@[i]));
            assert(result@[j].id == bodies@[j].id && !is_destroyed(bodies@[j]));
            assert(bodies@[i].id != bodies@[j].id);
        }
    }
    result
}

} // verus!
