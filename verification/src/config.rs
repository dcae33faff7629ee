//! World bounds, flock parameters, the machine limits the fixed-point
//! engine imposes on them, and the error type of the public operations.

use vstd::prelude::*;

verus! {

/// Largest accepted world width or height, in milli-units (1000 units).
pub const MAX_DIM: i64 = 1_000_000;

/// Largest accepted speed bound or base speed, in milli-units per second.
pub const MAX_SPEED_CAP: i64 = 1_000_000;

/// Largest accepted rule weight.
pub const MAX_WEIGHT: i64 = 100;

/// Largest accepted separation distance, in milli-units.
pub const MAX_SEP_DIST: i64 = 2_000_000;

/// Largest accepted number of agents in one store.
pub const MAX_AGENTS: usize = 1024;

/// Largest accepted tick duration, in milliseconds.
pub const MAX_DT: i64 = 10_000;

/// Bound kept on every stored velocity: squared speed never exceeds this
/// (a norm of two million milli-units per second).
pub const VEL_SQ_CAP: i64 = 4_000_000_000_000;

/// Size of the world: a centered rectangle `[-w/2, w/2] x [-h/2, h/2]`,
/// in milli-units. Captured once at startup and immutable afterwards.
#[derive(Clone, Copy, PartialEq, Eq, Structural, Debug)]
pub struct WinSize {
    pub w: i64,
    pub h: i64,
}

/// The recognized flocking options. Weights are dimensionless; distances
/// and speeds are in milli-units. Set once at initialization.
#[derive(Clone, Copy, PartialEq, Eq, Structural, Debug)]
pub struct FlockParams {
    pub coherence_weight: i64,
    pub separation_weight: i64,
    pub separation_distance: i64,
    pub alignment_weight: i64,
    pub base_speed: i64,
    pub min_speed: i64,
    pub max_speed: i64,
}

/// Failures surfaced to the caller.
#[derive(Clone, Copy, PartialEq, Eq, Structural, Debug)]
pub enum SimError {
    /// An agent identifier outside the store was passed in.
    OutOfRange,
    /// Non-positive bounds, a negative speed bound, or an inverted speed
    /// interval were supplied at initialization.
    InvalidConfiguration,
}

/// Half of a world dimension: the wrap domain on that axis is
/// `[-half(d), half(d)]`.
pub open spec fn half(d: int) -> int {
    d / 2
}

/// The machine limits of the fixed-point engine: magnitudes small enough
/// that every intermediate of a tick fits in 64 bits.
pub open spec fn caps_config(b: WinSize, p: FlockParams) -> bool {
    &&& b.w <= MAX_DIM
    &&& b.h <= MAX_DIM
    &&& p.min_speed <= MAX_SPEED_CAP
    &&& p.max_speed <= MAX_SPEED_CAP
    &&& 1 <= p.base_speed <= MAX_SPEED_CAP
    &&& 0 <= p.coherence_weight <= MAX_WEIGHT
    &&& 0 <= p.separation_weight <= MAX_WEIGHT
    &&& 0 <= p.alignment_weight <= MAX_WEIGHT
    &&& 0 <= p.separation_distance <= MAX_SEP_DIST
}

/// The configurations initialization accepts: positive bounds,
/// non-negative speed bounds, and an ordered speed interval.
pub open spec fn spec_ok(b: WinSize, p: FlockParams) -> bool {
    &&& b.w >= 1
    &&& b.h >= 1
    &&& p.min_speed >= 0
    &&& p.max_speed >= 0
    &&& p.min_speed <= p.max_speed
}

/// A configuration the engine runs with.
pub open spec fn valid_config(b: WinSize, p: FlockParams) -> bool {
    caps_config(b, p) && spec_ok(b, p)
}

/// Decides whether a configuration is acceptable; `initialize` rejects
/// exactly the configurations this refuses.
pub fn config_ok(b: &WinSize, p: &FlockParams) -> (r: bool)
    ensures
        r == spec_ok(*b, *p),
{
    b.w >= 1 && b.h >= 1 && p.min_speed >= 0 && p.max_speed >= 0 && p.min_speed <= p.max_speed
}

/// Computes `half` of a positive dimension.
pub fn half_dim(d: i64) -> (r: i64)
    requires
        0 <= d,
    ensures
        r == half(d as int),
        0 <= r <= d,
{
    ((d as u64) / 2) as i64
}

} // verus!
