//! Per-agent state: a fixed-point velocity vector and the marker types the
//! surrounding application attaches to simulated entities.

use vstd::prelude::*;
use crate::math::{div_trunc, sqrt_floor};

verus! {

/// Squared euclidean norm of a two-dimensional integer vector.
pub open spec fn nsq(x: int, y: int) -> int {
    x * x + y * y
}

/// A velocity in milli-units per second, stored as cartesian components.
#[derive(Clone, Copy, PartialEq, Eq, Structural, Debug)]
pub struct Velocity {
    pub x: i64,
    pub y: i64,
}

impl Velocity {
    /// Squared speed of this velocity.
    pub open spec fn speed_sq(self) -> int {
        nsq(self.x as int, self.y as int)
    }

    /// Floor of the euclidean norm, in milli-units per second.
    pub fn magnitude(&self) -> (r: i64)
        requires
            self.speed_sq() < 0x4000_0000_0000_0000,
        ensures
            r == sqrt_floor(self.speed_sq()),
            0 <= r,
            r * r <= self.speed_sq(),
            self.speed_sq() < (r + 1) * (r + 1),
    {
        proof {
            assert(self.x * self.x >= 0 && self.y * self.y >= 0) by (nonlinear_arith);
        }
        let s: u64 = ((self.x * self.x) + (self.y * self.y)) as u64;
        let r: u64 = crate::math::isqrt(s);
        r as i64
    }

    /// Rescales the vector so that its norm is close to one unit
    /// (`1_000` milli-units), keeping its direction. The zero vector has no
    /// direction and is excluded.
    pub fn normalize(&mut self)
        requires
            1 <= old(self).speed_sq() < 0x4000_0000_0000_0000,
        ensures
            final(self).x == div_trunc(old(self).x * 1000, sqrt_floor(old(self).speed_sq())),
            final(self).y == div_trunc(old(self).y * 1000, sqrt_floor(old(self).speed_sq())),
    {
        let m = self.magnitude();
        proof {
            if m == 0 {
                assert(self.speed_sq() < (0 + 1) * (0 + 1));
            }
            assert(self.x * self.x <= self.speed_sq() && self.y * self.y <= self.speed_sq())
                by (nonlinear_arith);
            assert(self.x * self.x < 0x8000_0000int * 0x8000_0000int);
            assert(-0x8000_0000 <= self.x <= 0x8000_0000 && -0x8000_0000 <= self.y
                <= 0x8000_0000) by (nonlinear_arith)
                requires
                    self.x * self.x < 0x8000_0000int * 0x8000_0000int,
                    self.y * self.y < 0x8000_0000int * 0x8000_0000int,
            {
            }
        }
        self.x = crate::math::div_q(self.x * 1000, m);
        self.y = crate::math::div_q(self.y * 1000, m);
    }
}

/// Marker for entities whose position the integrator advances each tick.
#[derive(Clone, Copy, PartialEq, Eq, Structural, Debug)]
pub struct Movable;

/// Marker for entities that take part in the flocking rules.
#[derive(Clone, Copy, PartialEq, Eq, Structural, Debug)]
pub struct Boid;

} // verus!
