//! Orbital bodies and the well-formedness invariant of a body list.
//!
//! A slot of the list is in one of three states, told apart by its id:
//! destroyed (`id == DESTROYED`, a tombstone that keeps the slot so indices
//! stay stable), anchored (`id == SOLAR`, the immovable central body), or
//! live (`id >= 0`).

use vstd::prelude::*;
use crate::units::{DESTROYED, MASS_MAX, POS_MAX, RAD_MAX, SOLAR, VEL_MAX};
use crate::vector::{vec_in_range, zero_vector, Vector};

verus! {

/// One simulated mass: planets, the sun, or a tombstone slot.
#[derive(Debug, Copy, Clone, PartialEq, Eq, Structural)]
pub struct Body {
    /// Unique among non-destroyed bodies; `DESTROYED` and `SOLAR` are
    /// reserved sentinels, live bodies have nonnegative ids.
    pub id: i64,
    /// Positive for non-destroyed bodies, zero for tombstones.
    pub mass: i64,
    /// Collision-volume radius in sub-units; positive for non-destroyed
    /// bodies, zero for tombstones.
    pub radius: i64,
    pub position: Vector,
    pub velocity: Vector,
}

/// The slot is a tombstone.
pub open spec fn is_destroyed(b: Body) -> bool {
    b.id == DESTROYED
}

/// The slot is the solar anchor: it exerts gravity but is never integrated,
/// culled, or destroyed by a collision.
pub open spec fn is_anchor(b: Body) -> bool {
    b.id == SOLAR
}

/// The slot is an ordinary live body.
pub open spec fn is_live(b: Body) -> bool {
    !is_destroyed(b) && !is_anchor(b)
}

/// The tombstone value: a destroyed body's mass and radius are reset to
/// zero, and its position and velocity with them.
pub open spec fn null_body() -> Body {
    Body { id: DESTROYED, mass: 0, radius: 0, position: zero_vector(), velocity: zero_vector() }
}

/// A tombstone, the value a destroyed slot holds.
pub fn tombstone() -> (b: Body)
    ensures
        b == null_body(),
{
    Body {
        id: DESTROYED,
        mass: 0,
        radius: 0,
        position: Vector { x: 0, y: 0, z: 0 },
        velocity: Vector { x: 0, y: 0, z: 0 },
    }
}

/// Well-formedness of one slot: a destroyed slot is exactly the tombstone;
/// any other body has positive mass and radius and coordinates within the
/// machine limits of the fixed-point integrator.
pub open spec fn body_ok(b: Body) -> bool {
    if is_destroyed(b) {
        b == null_body()
    } else {
        &&& 1 <= b.mass <= MASS_MAX
        &&& 1 <= b.radius <= RAD_MAX
        &&& vec_in_range(b.position, POS_MAX as int)
        &&& vec_in_range(b.velocity, VEL_MAX as int)
        &&& (b.id == SOLAR || b.id >= 0)
    }
}

/// Well-formedness of a body list: every slot is well formed and the ids of
/// non-destroyed bodies are pairwise distinct (so there is at most one
/// anchor, and live ids are unique).
pub open spec fn wf_bodies(bs: Seq<Body>) -> bool {
    &&& forall|i: int| 0 <= i < bs.len() ==> body_ok(#[trigger] bs[i])
    &&& forall|i: int, j: int|
        #![trigger bs[i], bs[j]]
        0 <= i < bs.len() && 0 <= j < bs.len() && i != j && !is_destroyed(bs[i]) && !is_destroyed(
            bs[j],
        ) ==> bs[i].id != bs[j].id
}

} // verus!
