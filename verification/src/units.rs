//! Simulation constants: the fixed-point scale, the gravitational constant,
//! the reserved body ids, and the machine limits that keep every formula of
//! the integrator inside 128-bit intermediate arithmetic.

use vstd::prelude::*;

verus! {

/// Fixed-point sub-units per simulation unit. Positions, velocities, radii,
/// distances and timesteps are all stored as multiples of `1 / SCALE`.
pub const SCALE: i64 = 100_000_000;

/// The gravitational constant is `G_NUM / G_DEN` (a stylized value, not a
/// physically calibrated one).
pub const G_NUM: i64 = 6674;

/// Denominator of the gravitational constant: `G = 6674 / 10^8`.
pub const G_DEN: i64 = 100_000_000;

/// `G_NUM * SCALE^3 / G_DEN`, the combined factor of the fixed-point force
/// formula: with distances and positions in sub-units, the force scalar
/// scaled by `SCALE` is `K_FORCE * m1 * m2 / d^2`.
pub const K_FORCE: i128 = 6674 * 10_000_000_000_000_000;

/// Reserved id of the solar anchor body.
pub const SOLAR: i64 = -2;

/// Reserved id marking a destroyed body (a tombstone slot).
pub const DESTROYED: i64 = -1;

/// Largest admissible mass (the solar body of [`crate::gen::gen_bodies`]
/// has mass 5_000_000).
pub const MASS_MAX: i64 = 10_000_000;

/// Largest admissible coordinate magnitude, in sub-units (10^9 units).
pub const POS_MAX: i64 = 100_000_000_000_000_000;

/// Largest admissible velocity magnitude, in sub-units per time unit.
/// A body whose integrated velocity would leave this range has escaped the
/// representable domain and is tombstoned, exactly as one that crosses the
/// positional bound is.
pub const VEL_MAX: i64 = 100_000_000_000_000_000;

/// Largest admissible collision radius, in sub-units (10^4 units).
pub const RAD_MAX: i64 = 1_000_000_000_000;

/// Largest admissible timestep, in sub-units (100 time units).
pub const DT_MAX: i64 = 10_000_000_000;

/// Largest admissible number of slots in a body list.
pub const N_MAX: usize = 4096;

} // verus!
