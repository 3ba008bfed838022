//! Celestial bodies: gravitating point masses with a radius, a display
//! category, a precomputed hill radius, a palette color and a name.
//!
//! The hill radius is computed once at creation from the parent's mass and
//! position and never recomputed as the system drifts: it is a static
//! scoping heuristic, not a live physical radius. The root star carries no
//! hill radius at all, which reads as an unbounded sphere of influence.

use vstd::prelude::*;
use crate::math::{
    cbrt_floor, cdiv128, cl64, icbrt, isqrt, sat_mul_u, sat_u, signed_clamped, sqrt_floor, tdiv,
    uabs64, uabs128,
};
use crate::movable::Movable;
use crate::trig::{rotate_vec2, spec_rotate};
use crate::vec2::{spec_add, spec_dist2, sq, v2, Vec2i};
use crate::{G, MAJOR_CB_HILL_RADIUS_COEFFICIENT};

verus! {

/// Display category of a body. Star, planet and moon are "major" bodies
/// (full pairwise gravity); asteroid is "minor" (pulled by one designated
/// parent only).
#[derive(Clone, Copy, PartialEq, Eq, Structural, Debug)]
pub enum CelestialBodyType {
    Star,
    Planet,
    Moon,
    Asteroid,
}

/// Palette colors used for bodies and trail points; rendering maps them to
/// actual pixel colors.
#[derive(Clone, Copy, PartialEq, Eq, Structural, Debug)]
pub enum DisplayColor {
    Orange,
    Brown,
    Beige,
    Blue,
    Red,
    Gray,
    Yellow,
    White,
}

impl CelestialBodyType {
    /// The smallest radius a body of this category is drawn with, in
    /// milli-units, however far the view zooms out.
    pub fn min_display_radius(&self) -> (r: i64)
        ensures
            r == spec_min_display_radius(*self),
    {
        match self {
            CelestialBodyType::Star => 15_000,
            CelestialBodyType::Planet => 5_000,
            CelestialBodyType::Moon => 3_000,
            CelestialBodyType::Asteroid => 1_000,
        }
    }
}

/// The fixed minimum display radius of each category, in milli-units.
pub open spec fn spec_min_display_radius(t: CelestialBodyType) -> int {
    match t {
        CelestialBodyType::Star => 15_000,
        CelestialBodyType::Planet => 5_000,
        CelestialBodyType::Moon => 3_000,
        CelestialBodyType::Asteroid => 1_000,
    }
}

/// A gravitating body. `hill_radius` is `None` for the root star
/// (unbounded influence) and a milli-unit radius otherwise.
pub struct CelestialBody {
    pub mov: Movable,
    pub radius: i64,
    pub cb_type: CelestialBodyType,
    pub hill_radius: Option<i64>,
    pub color: DisplayColor,
    pub name: String,
}

/// Basic well-formedness of a body: nonnegative mass, radius and hill
/// radius.
pub open spec fn body_wf(b: CelestialBody) -> bool {
    &&& b.mov.mass >= 0
    &&& b.radius >= 0
    &&& match b.hill_radius {
        Option::None => true,
        Option::Some(h) => h >= 0,
    }
}

/// Whether `point` lies strictly inside the circle at `circle` with the
/// given radius. The comparison is on squared distances, so the boundary
/// itself is outside.
pub open spec fn spec_point_in_circle(point: Vec2i, circle: Vec2i, radius: int) -> bool {
    spec_dist2(point, circle) < sq(radius)
}

/// One-step point-in-circle test on squared distances.
pub fn point_in_circle(point: &Vec2i, circle: &Vec2i, radius: i64) -> (r: bool)
    requires
        radius >= 0,
    ensures
        r == spec_point_in_circle(*point, *circle, radius as int),
{
    let d2: u128 = point.dist2(circle);
    let ur: u64 = uabs64(radius);
    proof {
        assert(ur as int * ur as int == sq(radius as int) && (ur as int * ur as int)
            <= u128::MAX as int) by (nonlinear_arith)
            requires
                ur as int == radius as int,
                0 <= ur as int,
                (ur as int) < 0x10000000000000000int,
        ;
        if spec_dist2(*point, *circle) == u128::MAX as int {
            assert(!((u128::MAX as int) < sq(radius as int)));
        }
    }
    let r2: u128 = (ur as u128) * (ur as u128);
    d2 < r2
}

/// The hill radius of a child orbiting a parent:
/// `distance * cbrt(child_mass / (3 * parent_mass))`, evaluated in
/// integers as the cube root of `distance^3 * child_mass / (3 * parent_mass)`,
/// saturating on the way up.
#[verifier::opaque]
pub open spec fn spec_hill_radius(
    parent_pos: Vec2i,
    parent_mass: int,
    child_pos: Vec2i,
    child_mass: int,
) -> int {
    let a = sqrt_floor(spec_dist2(parent_pos, child_pos) as nat) as int;
    let cube = sat_u(sat_u(a * a) * a);
    let num = sat_u(cube * child_mass);
    cbrt_floor((num / (3 * parent_mass)) as nat) as int
}

/// Compute a child body's hill radius at creation time.
pub fn calculate_hill_radius(
    parent_pos: &Vec2i,
    parent_mass: i64,
    child_pos: &Vec2i,
    child_mass: i64,
) -> (r: i64)
    requires
        parent_mass >= 1,
        child_mass >= 0,
    ensures
        r as int == spec_hill_radius(*parent_pos, parent_mass as int, *child_pos,
            child_mass as int),
        r >= 0,
{
    proof {
        reveal(spec_hill_radius);
    }
    let a: u128 = isqrt(parent_pos.dist2(child_pos));
    let cube: u128 = sat_mul_u(sat_mul_u(a, a), a);
    let num: u128 = sat_mul_u(cube, child_mass as u128);
    let den: u128 = 3 * (parent_mass as u128);
    let x: u128 = num / den;
    let root: u128 = icbrt(x);
    proof {
        lemma_cbrt_small(x as nat);
    }
    root as i64
}

/// A `u128` cube root always fits far inside the `i64` range.
proof fn lemma_cbrt_small(x: nat)
    requires
        x <= u128::MAX as nat,
    ensures
        cbrt_floor(x) < 0x80000000000000,
{
    crate::math::lemma_cbrt_floor_bounds(x);
    let r = cbrt_floor(x);
    if r >= 0x80000000000000 {
        crate::math::lemma_cube_le(0x80000000000000, r);
        assert(0x80000000000000nat * 0x80000000000000nat * 0x80000000000000nat
            > u128::MAX as nat) by (nonlinear_arith);
    }
}

/// The speed of a circular orbit at `dist` milli-units from a parent of
/// mass `pm`: `sqrt(G * pm / dist)` in milli-units per second, evaluated in
/// integers.
pub open spec fn spec_orbit_speed(pm: int, dist: int) -> int {
    let num = sat_u(sat_u(G * pm) * 1_000_000_000);
    cl64(sqrt_floor((num / dist) as nat) as int)
}

/// The offset and orbital velocity of a body placed `dist` milli-units
/// from its parent at the given angle: the offset is `(dist, 0)` rotated by
/// `angle`, the velocity is the perpendicular direction scaled to the
/// circular-orbit speed.
#[verifier::opaque]
pub open spec fn spec_initial_pv(pm: int, dist: int, angle: int) -> (Vec2i, Vec2i) {
    let delta = spec_rotate(v2(dist, 0), angle);
    let speed = spec_orbit_speed(pm, dist);
    let len = sqrt_floor(spec_dist2(delta, v2(0, 0)) as nat) as int;
    let vel = if len == 0 {
        v2(0, 0)
    } else {
        v2(cl64(tdiv(-(delta.y * speed), len)), cl64(tdiv(delta.x * speed, len)))
    };
    (delta, vel)
}

/// Place a body on a circular orbit: returns its position offset from the
/// parent and its velocity relative to the parent.
pub fn get_initial_position_and_velocity(parent_mass: i64, distance: i64, angle: i64) -> (r: (
    Vec2i,
    Vec2i,
))
    requires
        parent_mass >= 0,
        distance >= 1,
    ensures
        r == spec_initial_pv(parent_mass as int, distance as int, angle as int),
{
    proof {
        reveal(spec_initial_pv);
    }
    let dv = Vec2i::new(distance, 0);
    let delta: Vec2i = rotate_vec2(&dv, angle);
    let num: u128 = sat_mul_u(sat_mul_u(G as u128, parent_mass as u128), 1_000_000_000);
    let sp: u128 = isqrt(num / (distance as u128));
    let speed: i64 = signed_clamped(false, sp);
    let len: u128 = isqrt(delta.norm2());
    if len == 0 {
        let zero = Vec2i::zero();
        (delta, zero)
    } else {
        proof {
            lemma_sqrt_small(spec_dist2(delta, v2(0, 0)) as nat);
        }
        proof {
            lemma_i64_product_fits(delta.y as int, speed as int);
            lemma_i64_product_fits(delta.x as int, speed as int);
        }
        let leni: i128 = len as i128;
        let py: i128 = (delta.y as i128) * (speed as i128);
        let px: i128 = (delta.x as i128) * (speed as i128);
        let vx: i64 = cdiv128(-py, leni);
        let vy: i64 = cdiv128(px, leni);
        (delta, Vec2i { x: vx, y: vy })
    }
}

/// The product of two `i64`-range values fits the `i128` range.
proof fn lemma_i64_product_fits(a: int, b: int)
    requires
        i64::MIN as int <= a <= i64::MAX as int,
        i64::MIN as int <= b <= i64::MAX as int,
    ensures
        -0x40000000000000000000000000000000 <= a * b <= 0x40000000000000000000000000000000,
{
    assert(-0x40000000000000000000000000000000 <= a * b <= 0x40000000000000000000000000000000)
        by (nonlinear_arith)
        requires
            -0x8000000000000000 <= a <= 0x7FFFFFFFFFFFFFFF,
            -0x8000000000000000 <= b <= 0x7FFFFFFFFFFFFFFF,
    ;
}

/// A `u128` square root always fits the `i128` range.
proof fn lemma_sqrt_small(x: nat)
    requires
        x <= u128::MAX as nat,
    ensures
        sqrt_floor(x) <= 0x20000000000000000,
{
    crate::math::lemma_sqrt_floor_bounds(x);
    let r = sqrt_floor(x);
    if r > 0x20000000000000000 {
        assert(r * r > 0x20000000000000000nat * 0x20000000000000000nat) by (nonlinear_arith)
            requires
                r > 0x20000000000000000nat,
        ;
        assert(0x20000000000000000nat * 0x20000000000000000nat > u128::MAX as nat)
            by (nonlinear_arith);
    }
}

impl CelestialBody {
    /// A root body anchored at an absolute position, with unbounded
    /// influence and no initial velocity.
    pub fn new(
        pos: Vec2i,
        mass: i64,
        radius: i64,
        cb_type: CelestialBodyType,
        color: DisplayColor,
        name: String,
    ) -> (r: CelestialBody)
        ensures
            r.mov == Movable::spec_new_at(pos, Vec2i { x: 0i64, y: 0i64 }, mass, 0),
            r.radius == radius,
            r.cb_type == cb_type,
            r.hill_radius is None,
            r.color == color,
            r.name == name,
    {
        let zero = Vec2i::zero();
        CelestialBody {
            mov: Movable::new(pos, zero, mass, 0),
            radius,
            cb_type,
            hill_radius: Option::None,
            color,
            name,
        }
    }

    /// A body on a circular orbit around `parent`, at the given milli-unit
    /// distance and milli-degree angle, with its hill radius computed once
    /// from the parent's mass and position.
    pub fn from_parent(
        parent: &CelestialBody,
        distance: i64,
        angle: i64,
        mass: i64,
        radius: i64,
        cb_type: CelestialBodyType,
        color: DisplayColor,
        name: String,
    ) -> (r: CelestialBody)
        requires
            parent.mov.mass >= 1,
            distance >= 1,
            mass >= 0,
        ensures
            r.mov == Movable::spec_new_at(
                spec_add(
                    parent.mov.pos,
                    spec_initial_pv(parent.mov.mass as int, distance as int, angle as int).0,
                ),
                spec_add(
                    parent.mov.vel,
                    spec_initial_pv(parent.mov.mass as int, distance as int, angle as int).1,
                ),
                mass,
                0,
            ),
            r.radius == radius,
            r.cb_type == cb_type,
            r.hill_radius == Some(
                (spec_hill_radius(parent.mov.pos, parent.mov.mass as int, r.mov.pos,
                mass as int) as i64),
            ),
            0 <= spec_hill_radius(parent.mov.pos, parent.mov.mass as int, r.mov.pos, mass as int)
                <= i64::MAX as int,
            r.color == color,
            r.name == name,
    {
        let (pos, vel) = get_initial_position_and_velocity(parent.mov.mass, distance, angle);
        let mov = Movable::new(parent.mov.pos.add(&pos), parent.mov.vel.add(&vel), mass, 0);
        let hill_radius: i64 = calculate_hill_radius(
            &parent.mov.pos,
            parent.mov.mass,
            &mov.pos,
            mass,
        );
        CelestialBody {
            mov,
            radius,
            cb_type,
            hill_radius: Option::Some(hill_radius),
            color,
            name,
        }
    }

    /// Whether this body gravitationally dominates the given point: inside
    /// the hill radius for an asteroid, inside the enlarged hill radius for
    /// a major body, everywhere for the root.
    pub fn pos_in_hill_radius(&self, pos: &Vec2i) -> (r: bool)
        ensures
            r == spec_pos_in_hill_radius(*self, *pos),
    {
        match self.hill_radius {
            Option::None => true,
            Option::Some(h) => {
                let hr: i128 = match self.cb_type {
                    CelestialBodyType::Asteroid => h as i128,
                    _ => (MAJOR_CB_HILL_RADIUS_COEFFICIENT as i128) * (h as i128),
                };
                let uh: u128 = uabs128(hr);
                let hr2: u128 = sat_mul_u(uh, uh);
                proof {
                    lemma_sq_of_abs(hr as int);
                }
                let d2: u128 = pos.dist2(&self.mov.pos);
                d2 < hr2
            },
        }
    }

    /// Integrate this body's position one step of `dt` milliseconds.
    pub fn update(&mut self, dt: i64)
        ensures
            *final (self) == (CelestialBody {
                mov: crate::movable::spec_updated(old(self).mov, dt as int),
                ..*old(self)
            }),
    {
        self.mov.update(dt);
    }
}

/// Whether a body gravitationally dominates a point. An asteroid uses its
/// hill radius as is; a major body uses it enlarged by
/// `MAJOR_CB_HILL_RADIUS_COEFFICIENT`; the root (no hill radius) dominates
/// everywhere. The squared-distance comparison is strict, so a point on
/// the boundary is outside.
pub open spec fn spec_pos_in_hill_radius(b: CelestialBody, pos: Vec2i) -> bool {
    match b.hill_radius {
        Option::None => true,
        Option::Some(h) => {
            let hr = match b.cb_type {
                CelestialBodyType::Asteroid => h as int,
                _ => (MAJOR_CB_HILL_RADIUS_COEFFICIENT as int) * (h as int),
            };
            spec_dist2(pos, b.mov.pos) < sat_u(hr * hr)
        },
    }
}

/// Hill-sphere scoping is strict at the boundary: a minor body dominates
/// exactly the points strictly closer than its hill radius, on squared
/// distances — a point just inside is dominated, the boundary itself and
/// everything outside is not.
pub proof fn lemma_hill_boundary(b: CelestialBody, pos: Vec2i, h: i64)
    requires
        b.cb_type == CelestialBodyType::Asteroid,
        b.hill_radius == Some(h),
        h >= 0,
    ensures
        spec_pos_in_hill_radius(b, pos) <==> spec_dist2(pos, b.mov.pos) < h * h,
{
    assert(crate::math::sat_u(h * h) == h * h) by (nonlinear_arith)
        requires
            0 <= h < 0x8000000000000000int,
    ;
}

/// Squaring through the magnitude: `|a| * |a| == a * a`.
proof fn lemma_sq_of_abs(a: int)
    ensures
        crate::math::iabs(a) * crate::math::iabs(a) == a * a,
{
    assert(crate::math::iabs(a) * crate::math::iabs(a) == a * a) by (nonlinear_arith);
}

} // verus!
