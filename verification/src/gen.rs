//! Random scenario generation: a batch of uniformly random bodies plus the
//! solar anchor. The only randomness enters through one trusted wrapper
//! around the `rand` crate; everything stated here holds of every outcome.

use vstd::prelude::*;
use rand::Rng;
use crate::body::{body_ok, is_anchor, is_live, wf_bodies, Body};
use crate::units::{MASS_MAX, N_MAX, RAD_MAX, SCALE, SOLAR};
use crate::vector::{zero_vector, Vector};

verus! {

/// Relies on `rand::thread_rng` and `rand::Rng::gen_range`: a uniformly
/// random value in the half-open range `lo..hi`. `gen_range` panics on an
/// empty range, which the precondition excludes; nothing more than the
/// range of the result can be promised of a random draw.
#[verifier::external_body]
fn rand_range_i64(lo: i64, hi: i64) -> (r: i64)
    requires
        lo < hi,
    ensures
        lo <= r < hi,
{
    rand::thread_rng().gen_range(lo..hi)
}

/// One random live body: whole-unit position components in `[-50, 50)`,
/// whole-unit velocity components in `[-10, 10)`, mass in `[1, 100000]`,
/// and a radius in `(0, 5)` units drawn at a granularity of a thousandth
/// of a unit.
pub fn gen_body(id: i64) -> (b: Body)
    requires
        id >= 0,
    ensures
        b.id == id,
        is_live(b),
        body_ok(b),
        1 <= b.mass <= 100_000,
        100_000 <= b.radius <= 499_900_000,
        -50 * SCALE <= b.position.x <= 49 * SCALE,
        -50 * SCALE <= b.position.y <= 49 * SCALE,
        -50 * SCALE <= b.position.z <= 49 * SCALE,
        -10 * SCALE <= b.velocity.x <= 9 * SCALE,
        -10 * SCALE <= b.velocity.y <= 9 * SCALE,
        -10 * SCALE <= b.velocity.z <= 9 * SCALE,
{
    let rand_pos = Vector {
        x: rand_range_i64(-50, 50) * SCALE,
        y: rand_range_i64(-50, 50) * SCALE,
        z: rand_range_i64(-50, 50) * SCALE,
    };
    let rand_vel = Vector {
        x: rand_range_i64(-10, 10) * SCALE,
        y: rand_range_i64(-10, 10) * SCALE,
        z: rand_range_i64(-10, 10) * SCALE,
    };
    let mass = rand_range_i64(1, 100_001);
    let radius = rand_range_i64(1, 5000) * 100_000;
    Body { id: id, mass: mass, radius: radius, position: rand_pos, velocity: rand_vel }
}

/// The solar anchor: the reserved anchor id, a fixed large mass and
/// radius, zero position and zero velocity.
pub fn gen_solar(radius: i64, mass: i64) -> (b: Body)
    requires
        1 <= mass <= MASS_MAX,
        1 <= radius <= RAD_MAX,
    ensures
        b.id == SOLAR,
        b.mass == mass,
        b.radius == radius,
        b.position == zero_vector(),
        b.velocity == zero_vector(),
        is_anchor(b),
        body_ok(b),
{
    Body {
        id: SOLAR,
        mass: mass,
        radius: radius,
        position: Vector { x: 0, y: 0, z: 0 },
        velocity: Vector { x: 0, y: 0, z: 0 },
    }
}

/// Seed a scenario: `n` random bodies with strictly increasing unique ids
/// `0..n-1`, plus exactly one solar anchor of mass `5_000_000` and radius
/// `10` units in the final slot. The result is a well-formed generation.
pub fn gen_bodies(n: i64) -> (bodies: Vec<Body>)
    requires
        0 <= n,
        n < N_MAX,
    ensures
        bodies@.len() == n + 1,
        forall|i: int|
            0 <= i < n ==> (#[trigger] bodies@[i]).id == i && is_live(bodies@[i]) && 1
                <= bodies@[i].mass <= 100_000 && 1 <= bodies@[i].radius,
        bodies@[n as int].id == SOLAR,
        bodies@[n as int].mass == 5_000_000,
        bodies@[n as int].radius == 10 * SCALE,
        bodies@[n as int].position == zero_vector(),
        bodies@[n as int].velocity == zero_vector(),
        wf_bodies(bodies@),
{
    let mut bodies: Vec<Body> = Vec::new();
    let mut i: i64 = 0;
    while i < n
        invariant
            0 <= i <= n,
            n < N_MAX,
            bodies@.len() == i as int,
            forall|k: int|
                0 <= k < i as int ==> (#[trigger] bodies@[k]).id == k && is_live(bodies@[k])
                    && body_ok(bodies@[k]) && 1 <= bodies@[k].mass <= 100_000 && 1
                    <= bodies@[k].radius,
        decreases n - i,
    {
        bodies.push(gen_body(i));
        i = i + 1;
    }
    let sun = gen_solar(10 * SCALE, 5_000_000);
    bodies.push(sun);
    proof {
        assert forall|p: int, q: int|
            #![trigger bodies@[p], bodies@[q]]
            0 <= p < bodies@.len() && 0 <= q < bodies@.len() && p != q && !crate::body::is_destroyed(
                bodies@[p],
            ) && !crate::body::is_destroyed(bodies@[q]) implies bodies@[p].id != bodies@[q].id by {
            if p < n as int && q < n as int {
                assert(bodies@[p].id == p && bodies@[q].id == q);
            }
        }
    }
    bodies
}

} // verus!
