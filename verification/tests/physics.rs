use syzygy::body::{tombstone, Body};
use syzygy::force::{force_scalar, force_vector, gravitational_force};
use syzygy::gen::{gen_bodies, gen_body, gen_solar};
use syzygy::sim::model_collisions;
use syzygy::units::{DESTROYED, SCALE, SOLAR};
use syzygy::vector::{direction, distance, Vector};

fn vec3(x: i64, y: i64, z: i64) -> Vector {
    Vector { x, y, z }
}

fn live(id: i64, mass: i64, radius: i64, position: Vector, velocity: Vector) -> Body {
    Body { id, mass, radius, position, velocity }
}

#[test]
fn distance_is_symmetric() {
    let a = vec3(3 * SCALE, -4 * SCALE, 12 * SCALE);
    let b = vec3(-5 * SCALE, 7 * SCALE, 2 * SCALE);
    assert_eq!(distance(&a, &b), distance(&b, &a));
    assert_eq!(distance(&a, &a), 0);
    assert_eq!(distance(&b, &b), 0);
}

#[test]
fn distance_exact_value() {
    // A 3-4-5 triangle scaled into sub-units.
    let a = vec3(0, 0, 0);
    let b = vec3(300, 400, 0);
    assert_eq!(distance(&a, &b), 500);
}

#[test]
fn zero_distance_force_is_zero_vector() {
    let p = vec3(7 * SCALE, -2 * SCALE, 9 * SCALE);
    let f = gravitational_force(5_000, 123, &p, &p);
    assert_eq!(f, (0, 0, 0));
}

#[test]
fn force_scalar_exact_value() {
    // G * 100 * 100 / 2^2 at a distance of two units, scaled by SCALE.
    assert_eq!(force_scalar(100, 100, 2 * SCALE), 16_685_000);
}

#[test]
fn gravitational_force_points_along_axis() {
    let p1 = vec3(-SCALE, 0, 0);
    let p2 = vec3(SCALE, 0, 0);
    let f = gravitational_force(100, 100, &p1, &p2);
    assert_eq!(f, (16_685_000, 0, 0));
    let g = gravitational_force(100, 100, &p2, &p1);
    assert_eq!(g, (-16_685_000, 0, 0));
}

#[test]
fn direction_normalizes_components() {
    let a = vec3(0, 0, 0);
    let b = vec3(300, 400, 0);
    let d = distance(&a, &b);
    let dir = direction(&a, &b, d);
    assert_eq!(dir.x, 300 * SCALE / 500);
    assert_eq!(dir.y, 400 * SCALE / 500);
    assert_eq!(dir.z, 0);
}

#[test]
fn vector_add_is_componentwise() {
    let a = vec3(1, -2, 3);
    let b = vec3(10, 20, -30);
    let s = a.add(b);
    assert_eq!((s.x, s.y, s.z), (11, 18, -27));
}

#[test]
fn vector_scale_is_fixed_point_multiply() {
    // Scaling by half a unit halves each component, rounding toward zero.
    let v = vec3(2 * SCALE, -4 * SCALE, 5);
    let half = SCALE / 2;
    let r = v.scale(half);
    assert_eq!((r.x, r.y, r.z), (SCALE, -2 * SCALE, 2));
}

#[test]
fn force_vector_scales_direction() {
    let dir = vec3(2 * SCALE, -4 * SCALE, 0);
    let r = force_vector(SCALE / 2, &dir);
    assert_eq!((r.x, r.y, r.z), (SCALE, -2 * SCALE, 0));
}

#[test]
fn tombstone_is_null_slot() {
    let t = tombstone();
    assert_eq!(t.id, DESTROYED);
    assert_eq!(t.mass, 0);
    assert_eq!(t.radius, 0);
    assert_eq!((t.position.x, t.position.y, t.position.z), (0, 0, 0));
    assert_eq!((t.velocity.x, t.velocity.y, t.velocity.z), (0, 0, 0));
}

#[test]
fn merge_sums_mass_and_conserves_momentum() {
    let b0 = live(0, 100, 2 * SCALE, vec3(0, 0, 0), vec3(400_000_000, 0, 0));
    let b1 = live(1, 300, 2 * SCALE, vec3(2 * SCALE, 2 * SCALE, 0), vec3(0, 0, 0));
    let merged = model_collisions(&vec![b0, b1], 0, 1);
    assert_eq!(merged.len(), 2);
    let m = merged[0];
    // Combined mass.
    assert_eq!(m.mass, 400);
    // Momentum-conserving velocity: (100 * 4e8 + 300 * 0) / 400.
    assert_eq!((m.velocity.x, m.velocity.y, m.velocity.z), (100_000_000, 0, 0));
    // Volume-conserving radius: cbrt(2 * (2e8)^3), rounded down.
    assert_eq!(m.radius, 251_984_209);
    // Midpoint position.
    assert_eq!((m.position.x, m.position.y, m.position.z), (SCALE, SCALE, 0));
    // The first body's id survives; the second slot is a tombstone.
    assert_eq!(m.id, 0);
    assert_eq!(merged[1], tombstone());
}

#[test]
fn generation_invariants() {
    let bodies = gen_bodies(10);
    // 10 random bodies plus one anchor.
    assert_eq!(bodies.len(), 11);
    // All ids unique, strictly increasing over the random bodies.
    for i in 0..10usize {
        assert_eq!(bodies[i].id, i as i64);
    }
    // Exactly one anchor id present.
    let anchors = bodies.iter().filter(|b| b.id == SOLAR).count();
    assert_eq!(anchors, 1);
    assert_eq!(bodies[10].id, SOLAR);
    assert_eq!(bodies[10].mass, 5_000_000);
    assert_eq!(bodies[10].radius, 10 * SCALE);
    // All masses and radii strictly positive.
    for b in bodies.iter() {
        assert!(b.mass > 0);
        assert!(b.radius > 0);
    }
}

#[test]
fn generation_ranges_hold_on_every_draw() {
    // Would fail if the random wrapper returned values outside the
    // requested ranges: positions and velocities are whole units inside
    // the seeding cube, masses and radii inside their configured ranges.
    for _ in 0..50 {
        let b = gen_body(7);
        assert_eq!(b.id, 7);
        assert!(1 <= b.mass && b.mass <= 100_000);
        assert!(100_000 <= b.radius && b.radius < 500_000_000);
        assert_eq!(b.radius % 100_000, 0);
        for c in [b.position.x, b.position.y, b.position.z] {
            assert!(-50 * SCALE <= c && c < 50 * SCALE);
            assert_eq!(c % SCALE, 0);
        }
        for c in [b.velocity.x, b.velocity.y, b.velocity.z] {
            assert!(-10 * SCALE <= c && c < 10 * SCALE);
            assert_eq!(c % SCALE, 0);
        }
    }
}

#[test]
fn solar_body_is_fixed() {
    let sun = gen_solar(10 * SCALE, 5_000_000);
    assert_eq!(sun.id, SOLAR);
    assert_eq!(sun.mass, 5_000_000);
    assert_eq!(sun.radius, 10 * SCALE);
    assert_eq!((sun.position.x, sun.position.y, sun.position.z), (0, 0, 0));
    assert_eq!((sun.velocity.x, sun.velocity.y, sun.velocity.z), (0, 0, 0));
}
