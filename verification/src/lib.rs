//! A verified n-body gravity simulator on fixed-point arithmetic.
//!
//! Bodies are point masses with spherical collision volumes. Positions,
//! velocities, radii and timesteps are 64-bit fixed-point numbers with
//! [`units::SCALE`] sub-units per simulation unit; masses are plain positive
//! integers. Each call to [`sim::update_all_bodies`] derives a whole new
//! generation of the body list from an immutable snapshot of the previous
//! one: forces are accumulated pairwise, motion is integrated, escaped
//! bodies are culled and colliding bodies are tombstoned.

pub mod body;
pub mod force;
pub mod gen;
pub mod laws;
pub mod math;
pub mod sim;
pub mod units;
pub mod vector;
