//! A small deterministic gravitational sandbox: a star system with planets,
//! moons, an asteroid belt and one player ship, advanced in fixed integer
//! time steps, with hill-sphere scoped gravity, a flight/landing/destruction
//! state machine and a speculative trajectory predictor that checkpoints,
//! simulates ahead and rolls back.
//!
//! All physical quantities are fixed-point integers: positions and
//! velocities in milli-units (and milli-units per second), angles in
//! milli-degrees, masses in whole units, times in milliseconds. Every
//! arithmetic step is total: wide intermediates saturate at the `u128` range
//! and results clamp to the `i64` range, and each operation's contract
//! states its result exactly.

use vstd::prelude::*;

pub mod body;
pub mod generators;
pub mod gravity;
pub mod math;
pub mod movable;
pub mod predict;
pub mod scenario;
pub mod ship;
pub mod timer;
pub mod ui;
pub mod trig;
pub mod vec2;
pub mod world;

verus! {

/// Gravitational constant, in world units.
pub const G: i64 = 50;

/// Fixed-point scale: milli-units per unit, and milliseconds per second.
pub const MILLI: i64 = 1000;

/// One astronomical unit, in milli-units.
pub const AU: i64 = 150_000_000;

/// Ship display and collision size, in milli-units.
pub const SHIP_SIZE: i64 = 10_000;

/// Ship thrust, in milli-units per second squared.
pub const SHIP_ACCELERATION: i64 = 10_000;

/// Ship turn rate, in milli-degrees per second.
pub const SHIP_ROT_SPEED: i64 = 90_000;

/// Live physics step, in milliseconds.
pub const PHYSICS_STEP_MS: i64 = 20;

/// Trajectory predictor step, in milliseconds.
pub const SIMULATION_STEP_MS: i64 = 500;

/// Enlargement applied to major bodies' hill radii when scoping ship
/// gravity; a tuned parameter, not a physical constant.
pub const MAJOR_CB_HILL_RADIUS_COEFFICIENT: i64 = 3;

/// Simulated length of a day, in milliseconds.
pub const DAY_TIME_MS: i64 = 24_000;

/// Largest landing speed the ship survives, in milli-units per second.
pub const TERMINAL_VELOCITY: i64 = 30_000;

/// Largest misalignment from the surface normal the ship survives when
/// touching down, in milli-degrees.
pub const LANDING_TOLERANCE_MDEG: i64 = 30_000;

/// Lifetime of a point on the live flight trail, in milliseconds.
pub const TRAIL_CLEANUP_TIME_MS: i64 = 300_000;

/// Lifetime of a point on the predicted trail, in milliseconds.
pub const SIM_TRAIL_LIFE_MS: i64 = 10_000;

/// How often the live flight trail gains a point, in milliseconds.
pub const TRAIL_EMIT_PERIOD_MS: i64 = 2_000;

/// Half a turn, in milli-degrees.
pub const HALF_TURN_MDEG: i64 = 180_000;

/// A quarter turn, in milli-degrees.
pub const QUARTER_TURN_MDEG: i64 = 90_000;

/// A full turn, in milli-degrees.
pub const FULL_TURN_MDEG: i64 = 360_000;

/// Fixed-point denominator for sine and cosine values.
pub const TRIG_SCALE: i64 = 1_000_000;

/// Scale factor of the gravity formula: converts the milli-unit cube of the
/// distance into the milli-unit result, times the millisecond step.
pub const GRAV_SCALE: i64 = 1_000_000;

} // verus!
