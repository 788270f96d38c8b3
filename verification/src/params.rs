//! Tuning constants of the simulation, and the magnitude caps under which
//! every piece of rule arithmetic fits in an `i64`.
//!
//! Fixed-point convention: positions and velocities are `i64` milli-units
//! (one world unit = 1000). A dimensionless factor such as 0.005 is the
//! rational `5 / SCALE`; multiplying a value by it is `value * 5 / SCALE`
//! with truncating division.

use vstd::prelude::*;

verus! {

/// Fixed-point scale: milli-units per world unit, and the denominator of
/// every rule factor.
pub const SCALE: i64 = 1000;

/// Ticks per simulated second; each tick advances positions by
/// `velocity / TICKS_PER_SECOND` (a fixed timestep of 1/60 s).
pub const TICKS_PER_SECOND: i64 = 60;

/// Range (milli-units) within which agents show cohesion and alignment.
pub const FLOCKING_RANGE: i64 = 200_000;

/// Tighter range (milli-units) within which agents repel each other.
pub const SEPARATION_DISTANCE: i64 = 30_000;

/// Cohesion factor 0.005 = `CENTERING_NUM / SCALE`.
pub const CENTERING_NUM: i64 = 5;

/// Alignment factor 0.05 = `ALIGNMENT_NUM / SCALE`.
pub const ALIGNMENT_NUM: i64 = 50;

/// Separation factor 0.05 = `SEPARATION_NUM / SCALE`.
pub const SEPARATION_NUM: i64 = 50;

/// Speed regulation factor 0.005 = `REGULATION_NUM / SCALE`.
pub const REGULATION_NUM: i64 = 5;

/// Below this speed (milli-units per second) regulation nudges the velocity
/// away from zero.
pub const LOW_SPEED: i64 = 500_000;

/// Above this speed regulation nudges the velocity toward zero.
pub const HIGH_SPEED: i64 = 800_000;

/// Initial speeds are guaranteed to lie in `[SPEED_MIN, SPEED_MAX]`
/// (milli-units per second).
pub const SPEED_MIN: i64 = 200_000;

/// Upper end of the initial speed band.
pub const SPEED_MAX: i64 = 600_000;

/// Largest population the rules accept; keeps every neighbour-scan
/// accumulator within `i64`.
pub const MAX_AGENTS: usize = 10_000;

/// Largest position coordinate magnitude the rules accept on entry to a tick.
pub const POS_LIMIT: i64 = 1_000_000_000;

/// Largest velocity component magnitude `tick` accepts on entry.
pub const VEL_TICK_LIMIT: i64 = 1_000_000_000;

/// Velocity cap admitted by `center_squirrels`.
pub const VEL_CAP_CENTER: i64 = 1_100_000_000;

/// Velocity cap admitted by `align_squirrels`; equals `VEL_CAP_CENTER` plus
/// the largest centering delta `2 * POS_LIMIT * CENTERING_NUM / SCALE`.
pub const VEL_CAP_ALIGN: i64 = 1_110_000_000;

/// Velocity cap admitted by `separate_squirrels`; equals `VEL_CAP_ALIGN` plus
/// the largest alignment delta `2 * VEL_CAP_ALIGN * ALIGNMENT_NUM / SCALE`.
pub const VEL_CAP_SEPARATE: i64 = 1_221_000_000;

/// Velocity cap admitted by `regulate_velocities`; equals `VEL_CAP_SEPARATE`
/// plus the largest separation delta
/// `MAX_AGENTS * SEPARATION_DISTANCE * SEPARATION_NUM / SCALE`.
pub const VEL_CAP_REGULATE: i64 = 1_236_000_000;

/// Velocity cap admitted by `move_squirrels`; equals `VEL_CAP_REGULATE` plus
/// the largest regulation delta `VEL_CAP_REGULATE * REGULATION_NUM / SCALE`.
pub const VEL_CAP_MOVE: i64 = 1_242_180_000;

/// Position cap guaranteed after a tick: `POS_LIMIT` plus the largest
/// single-step displacement `VEL_CAP_MOVE / TICKS_PER_SECOND`.
pub const POS_CAP_END: i64 = 1_020_703_000;

} // verus!
