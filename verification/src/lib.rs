//! Verified core of a two-dimensional boids simulation.
//!
//! Each tick, every agent steers by three local flocking rules (cohesion,
//! separation, alignment) computed from a consistent snapshot of the whole
//! flock, then its speed is clamped and its position advanced and wrapped
//! toroidally into a centered rectangle.
//!
//! All spatial quantities are fixed-point integers in milli-units: a
//! position component of `1_000` stands for one world unit. Velocities are
//! milli-units per second, and tick durations are milliseconds.

pub mod components;
pub mod clamp;
pub mod config;
pub mod engine;
pub mod flock;
pub mod laws;
pub mod math;
pub mod rng;
pub mod store;
pub mod sums;
