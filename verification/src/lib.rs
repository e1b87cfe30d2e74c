//! A 2D particle-and-constraint physics core ("cloth" solver).
//!
//! Mass points connected by fixed-length ropes are advanced each frame by
//! Verlet integration followed by iterative constraint relaxation, and an
//! interaction controller turns decoded pointer/key events into scene edits.
//! All coordinates are fixed-point: an `i64` holds a length in thousandths of
//! a world unit, so the whole simulation is exact integer arithmetic.

pub mod num;
pub mod models;
pub mod scene;
pub mod solver;
pub mod controller;

use vstd::prelude::*;

verus! {

/// Fixed-point scale: coordinate values count thousandths of a world unit.
pub const FX_ONE: i64 = 1000;

/// Radius of a drawn point, in fixed-point units (10 world units).
pub const POINT_SIZE: i64 = 10 * FX_ONE;

/// Downward acceleration constant; each step adds `GRAVITY * dt` to the
/// vertical position of every unlocked point (`dt` in fixed-point seconds).
pub const GRAVITY: i64 = 80;

/// Coordinates are kept inside `[-COORD_LIMIT, COORD_LIMIT]`; every position
/// write saturates to this range so squared distances never overflow `i64`.
pub const COORD_LIMIT: i64 = 1_000_000_000;

/// Strict upper bound on any rope's rest length: the diagonal of the
/// coordinate box is below `3_000_000_000`.
pub const LEN_MAX: i64 = 3_000_000_000;

/// Largest accepted timestep, in fixed-point seconds; larger values saturate.
pub const DT_MAX: i64 = 1_000_000;

/// Number of constraint-relaxation sweeps per solver step.
pub const RELAX_ROUNDS: u64 = 4;

/// Side length of the generated grid, in points.
pub const GRID_DIM: u64 = 26;

/// Spacing of the generated grid (five point radii).
pub const GRID_STEP: i64 = 5 * POINT_SIZE;

} // verus!
