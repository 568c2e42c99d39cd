use syzygy::body::{tombstone, Body};
use syzygy::gen::gen_solar;
use syzygy::sim::{update_all_bodies, update_positions};
use syzygy::units::{DESTROYED, SCALE, SOLAR};
use syzygy::vector::Vector;

fn vec3(x: i64, y: i64, z: i64) -> Vector {
    Vector { x, y, z }
}

fn live(id: i64, mass: i64, radius: i64, position: Vector, velocity: Vector) -> Body {
    Body { id, mass, radius, position, velocity }
}

const BOUND_1000: i64 = 1000 * SCALE;
const DT_HUNDREDTH: i64 = SCALE / 100;

#[test]
fn two_equal_masses_approach() {
    // Two bodies of mass 100, radius 0.1, at (-1, 0, 0) and (1, 0, 0),
    // zero velocity, dt = 0.01, bound = 1000.
    let b0 = live(0, 100, SCALE / 10, vec3(-SCALE, 0, 0), vec3(0, 0, 0));
    let b1 = live(1, 100, SCALE / 10, vec3(SCALE, 0, 0), vec3(0, 0, 0));
    let next = update_all_bodies(&vec![b0, b1], DT_HUNDREDTH, BOUND_1000);
    assert_eq!(next.len(), 2);
    // Both velocities are nonzero and point toward each other.
    assert_eq!(next[0].velocity.x, 166_850);
    assert_eq!(next[1].velocity.x, -166_850);
    assert_eq!((next[0].velocity.y, next[0].velocity.z), (0, 0));
    // The absolute separation shrank.
    assert_eq!(next[0].position.x, -SCALE + 8);
    assert_eq!(next[1].position.x, SCALE - 8);
    // Neither is destroyed: distance 2 far exceeds the radius sum 0.2.
    assert_eq!(next[0].id, 0);
    assert_eq!(next[1].id, 1);
    // Ids, masses and radii are untouched.
    assert_eq!((next[0].mass, next[0].radius), (100, SCALE / 10));
    assert_eq!((next[1].mass, next[1].radius), (100, SCALE / 10));
}

#[test]
fn escape_culling() {
    // A body at (999, 0, 0) with velocity (1000, 0, 0), dt = 1,
    // bound = 1000: after one step its x exceeds the bound.
    let b = live(0, 100, SCALE / 10, vec3(999 * SCALE, 0, 0), vec3(1000 * SCALE, 0, 0));
    let next = update_all_bodies(&vec![b], SCALE, BOUND_1000);
    assert_eq!(next.len(), 1);
    assert_eq!(next[0], tombstone());
}

#[test]
fn boundary_exactness_per_axis() {
    // With zero velocity and zero timestep a lone body keeps its
    // position, so the cull decision depends on the position alone:
    // exactly at the bound it survives, one sub-unit beyond it is culled,
    // on each axis independently.
    for axis in 0..3usize {
        for (offset, culled) in [(0i64, false), (1i64, true)] {
            let mut p = vec3(0, 0, 0);
            let c = BOUND_1000 + offset;
            match axis {
                0 => p.x = c,
                1 => p.y = c,
                _ => p.z = c,
            }
            let b = live(0, 100, SCALE / 10, p, vec3(0, 0, 0));
            let next = update_all_bodies(&vec![b], 0, BOUND_1000);
            if culled {
                assert_eq!(next[0], tombstone());
            } else {
                assert_eq!(next[0], b);
            }
        }
    }
}

#[test]
fn negative_boundary_culls_too() {
    let b = live(0, 100, SCALE / 10, vec3(0, -BOUND_1000 - 1, 0), vec3(0, 0, 0));
    let next = update_all_bodies(&vec![b], 0, BOUND_1000);
    assert_eq!(next[0], tombstone());
    let c = live(0, 100, SCALE / 10, vec3(0, -BOUND_1000, 0), vec3(0, 0, 0));
    let next2 = update_all_bodies(&vec![c], 0, BOUND_1000);
    assert_eq!(next2[0], c);
}

#[test]
fn collision_threshold_exact_no_collision_at_radius_sum() {
    // Distance exactly equal to the radius sum: 0.2 units apart, radii
    // 0.1 each. No collision; both bodies survive the step.
    let b0 = live(0, 1, SCALE / 10, vec3(0, 0, 0), vec3(0, 0, 0));
    let b1 = live(1, 1, SCALE / 10, vec3(2 * (SCALE / 10), 0, 0), vec3(0, 0, 0));
    let next = update_all_bodies(&vec![b0, b1], 0, BOUND_1000);
    assert_eq!(next[0].id, 0);
    assert_eq!(next[1].id, 1);
}

#[test]
fn collision_below_radius_sum_destroys() {
    // One sub-unit closer than the radius sum: the overlap tombstones the
    // second body of every tested ordering, so both bodies vanish.
    let b0 = live(0, 1, SCALE / 10, vec3(0, 0, 0), vec3(0, 0, 0));
    let b1 = live(1, 1, SCALE / 10 + 1, vec3(2 * (SCALE / 10), 0, 0), vec3(0, 0, 0));
    let next = update_all_bodies(&vec![b0, b1], 0, BOUND_1000);
    assert_eq!(next[1], tombstone());
    assert_eq!(next[0], tombstone());
}

#[test]
fn velocity_escape_tombstones() {
    // A body already at the representable velocity limit that is pushed
    // further has escaped the fixed-point domain and becomes a tombstone,
    // just like one that crosses the positional bound.
    let vel_max: i64 = 100_000_000_000_000_000;
    let b0 = live(0, 10_000_000, SCALE / 10, vec3(0, 0, 0), vec3(vel_max, 0, 0));
    let b1 = live(1, 10_000_000, SCALE / 10, vec3(SCALE, 0, 0), vec3(0, 0, 0));
    let next = update_all_bodies(&vec![b0, b1], 0, BOUND_1000);
    // b1 pulls b0 toward +x, past the limit; b0 is tombstoned.
    assert_eq!(next[0], tombstone());
    // b1 itself is pulled toward -x and survives.
    assert_eq!(next[1].id, 1);
    assert_eq!(next[1].velocity.x, -66_740_000_000);
}

#[test]
fn anchor_invariance() {
    // The anchor draws a planet inward but is itself bit-identical after
    // the step.
    let sun = gen_solar(10 * SCALE, 5_000_000);
    let planet = live(0, 100, SCALE / 10, vec3(50 * SCALE, 0, 0), vec3(0, 0, 0));
    let next = update_all_bodies(&vec![planet, sun], DT_HUNDREDTH, BOUND_1000);
    assert_eq!(next[1], sun);
    // The planet accelerated toward the sun and moved inward.
    assert_eq!(next[0].velocity.x, -13_348_000);
    assert_eq!(next[0].position.x, 50 * SCALE - 667);
}

#[test]
fn tombstone_permanence() {
    // A tombstone slot passes through steps unchanged, whatever else the
    // list holds.
    let dead = tombstone();
    let planet = live(3, 100, SCALE / 10, vec3(SCALE, 0, 0), vec3(0, 0, 0));
    let next = update_all_bodies(&vec![dead, planet], DT_HUNDREDTH, BOUND_1000);
    assert_eq!(next[0], tombstone());
    let again = update_all_bodies(&next, SCALE, BOUND_1000);
    assert_eq!(again[0], tombstone());
    // The tombstone exerted no force on the planet.
    assert_eq!(next[1].velocity, vec3(0, 0, 0));
}

#[test]
fn determinism_of_advance() {
    let b0 = live(0, 40_000, SCALE, vec3(-3 * SCALE, SCALE, 0), vec3(0, SCALE / 100, 0));
    let b1 = live(1, 2_500, SCALE / 2, vec3(4 * SCALE, 0, -2 * SCALE), vec3(-SCALE / 50, 0, 0));
    let sun = gen_solar(2 * SCALE, 5_000_000);
    let input = vec![b0, b1, sun];
    let r1 = update_all_bodies(&input, DT_HUNDREDTH, BOUND_1000);
    let r2 = update_all_bodies(&input, DT_HUNDREDTH, BOUND_1000);
    assert_eq!(r1, r2);
}

#[test]
fn update_positions_leaves_anchor_and_tombstones_alone() {
    let sun = gen_solar(10 * SCALE, 5_000_000);
    let dead = tombstone();
    let planet = live(0, 100, SCALE / 10, vec3(50 * SCALE, 0, 0), vec3(0, 0, 0));
    let bodies = vec![planet, sun, dead];
    assert_eq!(update_positions(&bodies, 1, DT_HUNDREDTH), sun);
    assert_eq!(update_positions(&bodies, 2, DT_HUNDREDTH), tombstone());
}

#[test]
fn slots_are_stable_across_generations() {
    // A destroyed middle slot keeps later indices stable.
    let b0 = live(0, 100, SCALE / 10, vec3(-SCALE, 0, 0), vec3(0, 0, 0));
    let doomed = live(1, 100, SCALE / 10, vec3(2000 * SCALE, 0, 0), vec3(0, 0, 0));
    let b2 = live(2, 100, SCALE / 10, vec3(SCALE, 0, 0), vec3(0, 0, 0));
    let next = update_all_bodies(&vec![b0, doomed, b2], 0, BOUND_1000);
    assert_eq!(next.len(), 3);
    assert_eq!(next[0].id, 0);
    assert_eq!(next[1].id, DESTROYED);
    assert_eq!(next[2].id, 2);
    assert_eq!(next[2].id, 2);
    assert_ne!(next[0].id, SOLAR);
}
