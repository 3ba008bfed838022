//! Two-dimensional fixed-point vectors.
//!
//! Components are milli-units held in `i64`. Operations clamp to the `i64`
//! range and state their result exactly over the spec mirrors in
//! `crate::math`.

use vstd::prelude::*;
use crate::math::{cadd64, cl64, iabs, muldiv, sat_add_u, sat_u, tdiv, uabs128};
use crate::MILLI;

verus! {

/// A 2D vector of milli-unit fixed-point coordinates.
#[derive(Clone, Copy, PartialEq, Eq, Structural, Debug)]
pub struct Vec2i {
    pub x: i64,
    pub y: i64,
}

/// Build a vector from unbounded coordinates known to fit `i64`.
pub open spec fn v2(x: int, y: int) -> Vec2i {
    Vec2i { x: x as i64, y: y as i64 }
}

/// The square of an unbounded integer.
pub open spec fn sq(a: int) -> int {
    a * a
}

/// Componentwise clamped sum.
pub open spec fn spec_add(a: Vec2i, b: Vec2i) -> Vec2i {
    v2(cl64(a.x + b.x), cl64(a.y + b.y))
}

/// The position reached from `p` after moving at `v` milli-units per second
/// for `dt` milliseconds, componentwise clamped.
pub open spec fn spec_advance(p: Vec2i, v: Vec2i, dt: int) -> Vec2i {
    v2(
        cl64(p.x + cl64(tdiv(v.x * dt, MILLI as int))),
        cl64(p.y + cl64(tdiv(v.y * dt, MILLI as int))),
    )
}

/// Squared distance between two points, saturating at the `u128` range.
pub open spec fn spec_dist2(a: Vec2i, b: Vec2i) -> int {
    sat_u(sq(a.x - b.x) + sq(a.y - b.y))
}

impl Vec2i {
    /// The zero vector.
    pub fn zero() -> (r: Vec2i)
        ensures
            r == (Vec2i { x: 0i64, y: 0i64 }),
    {
        Vec2i { x: 0, y: 0 }
    }

    /// Construct from components.
    pub fn new(x: i64, y: i64) -> (r: Vec2i)
        ensures
            r == (Vec2i { x, y }),
    {
        Vec2i { x, y }
    }

    /// Clamped componentwise addition.
    pub fn add(&self, o: &Vec2i) -> (r: Vec2i)
        ensures
            r == spec_add(*self, *o),
    {
        Vec2i { x: cadd64(self.x, o.x), y: cadd64(self.y, o.y) }
    }

    /// Where a point at `self` ends up after `dt` milliseconds at velocity
    /// `v`.
    pub fn advance(&self, v: &Vec2i, dt: i64) -> (r: Vec2i)
        ensures
            r == spec_advance(*self, *v, dt as int),
    {
        Vec2i {
            x: cadd64(self.x, muldiv(v.x, dt, MILLI)),
            y: cadd64(self.y, muldiv(v.y, dt, MILLI)),
        }
    }

    /// Squared length, saturating at the `u128` range.
    pub fn norm2(&self) -> (r: u128)
        ensures
            r as int == spec_dist2(*self, Vec2i { x: 0i64, y: 0i64 }),
    {
        let z = Vec2i { x: 0, y: 0 };
        self.dist2(&z)
    }

    /// Squared distance to another point, saturating at the `u128` range.
    pub fn dist2(&self, o: &Vec2i) -> (r: u128)
        ensures
            r as int == spec_dist2(*self, *o),
    {
        let dx: i128 = (self.x as i128) - (o.x as i128);
        let dy: i128 = (self.y as i128) - (o.y as i128);
        let ux: u128 = uabs128(dx);
        let uy: u128 = uabs128(dy);
        proof {
            assert(ux as int * ux as int == sq(self.x - o.x) && (ux as int * ux as int)
                <= u128::MAX as int) by (nonlinear_arith)
                requires
                    ux as int == iabs(self.x - o.x),
                    iabs(self.x - o.x) < 0x10000000000000000int,
            ;
            assert(uy as int * uy as int == sq(self.y - o.y) && (uy as int * uy as int)
                <= u128::MAX as int) by (nonlinear_arith)
                requires
                    uy as int == iabs(self.y - o.y),
                    iabs(self.y - o.y) < 0x10000000000000000int,
            ;
        }
        let sx: u128 = ux * ux;
        let sy: u128 = uy * uy;
        sat_add_u(sx, sy)
    }
}

} // verus!
