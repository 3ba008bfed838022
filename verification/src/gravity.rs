//! The gravity solver: pairwise Newtonian velocity deltas, applied across
//! a chosen set of major bodies (all pairs, each unordered pair exactly
//! once) and across minor bodies (each pulled by one designated parent
//! only).
//!
//! The velocity delta of a body pulled by a mass `m` at squared milli-unit
//! distance `d2` over `dt` milliseconds is, per component,
//! `diff * G * m * GRAV_SCALE * dt / (d2 * sqrt(d2))`, pointing toward the
//! other body. Coincident positions are a defined degenerate case: zero
//! force.

use vstd::prelude::*;
use crate::body::{body_wf, CelestialBody};
use crate::math::{
    cl64, iabs, isqrt, sat_mul_u, sat_u, signed_clamped, sqrt_floor, uabs128,
};
use crate::movable::Movable;
use crate::vec2::{spec_add, spec_dist2, v2, Vec2i};
use crate::{G, GRAV_SCALE};

verus! {

/// The saturated pull factor `mass * G * GRAV_SCALE * dt` of a body of the
/// given mass over a step of `dt` milliseconds.
pub open spec fn spec_grav_factor(mass: int, dt: int) -> int {
    sat_u(sat_u(sat_u(mass * (G as int)) * (GRAV_SCALE as int)) * dt)
}

/// The shared denominator `d2 * sqrt(d2)` of one pairwise interaction,
/// saturated.
pub open spec fn spec_grav_denom(d2: int) -> int {
    sat_u(d2 * (sqrt_floor(d2 as nat) as int))
}

/// One velocity delta component: magnitude `|diff| * factor / den`,
/// directed against the sign of `diff` (toward the other body), clamped.
pub open spec fn spec_pull(diff: int, factor: int, den: int) -> int {
    let q = sat_u(iabs(diff) * factor) / den;
    cl64(
        if diff >= 0 {
            -q
        } else {
            q
        },
    )
}

/// The pair of velocity deltas of one gravitational interaction: the first
/// for the body at `a_pos`, the second for the body at `b_pos`, each
/// directed toward the other. Coincident positions give zero force.
pub open spec fn spec_gravity_vel(
    a_pos: Vec2i,
    a_mass: int,
    b_pos: Vec2i,
    b_mass: int,
    dt: int,
) -> (Vec2i, Vec2i) {
    let d2 = spec_dist2(a_pos, b_pos);
    if d2 == 0 {
        (v2(0, 0), v2(0, 0))
    } else {
        let den = spec_grav_denom(d2);
        let fa = spec_grav_factor(a_mass, dt);
        let fb = spec_grav_factor(b_mass, dt);
        (
            v2(spec_pull(a_pos.x - b_pos.x, fb, den), spec_pull(a_pos.y - b_pos.y, fb, den)),
            v2(spec_pull(b_pos.x - a_pos.x, fa, den), spec_pull(b_pos.y - a_pos.y, fa, den)),
        )
    }
}

/// The denominator of a non-degenerate interaction is at least one.
pub proof fn lemma_grav_denom_pos(d2: int)
    requires
        1 <= d2 <= u128::MAX as int,
    ensures
        1 <= spec_grav_denom(d2) <= u128::MAX as int,
{
    crate::math::lemma_sqrt_floor_bounds(d2 as nat);
    let s = sqrt_floor(d2 as nat) as int;
    if s == 0 {
        assert((0 + 1) * (0 + 1) == 1) by (nonlinear_arith);
    }
    assert(d2 * s >= 1) by (nonlinear_arith)
        requires
            d2 >= 1,
            s >= 1,
    ;
}

/// One pairwise gravitational interaction between the bodies at `a_pos`
/// and `b_pos`, over `dt` milliseconds: returns the velocity delta of
/// each, directed toward the other. Coincident positions produce zero
/// force rather than an undefined direction.
pub fn gravity_vel(a_pos: &Vec2i, a_mass: i64, b_pos: &Vec2i, b_mass: i64, dt: i64) -> (r: (
    Vec2i,
    Vec2i,
))
    requires
        a_mass >= 0,
        b_mass >= 0,
        dt >= 0,
    ensures
        r == spec_gravity_vel(*a_pos, a_mass as int, *b_pos, b_mass as int, dt as int),
{
    let d2: u128 = a_pos.dist2(b_pos);
    if d2 == 0 {
        let z1 = Vec2i::zero();
        let z2 = Vec2i::zero();
        return (z1, z2);
    }
    proof {
        lemma_grav_denom_pos(d2 as int);
    }
    let len: u128 = isqrt(d2);
    let den: u128 = sat_mul_u(d2, len);
    let fa: u128 = grav_factor(a_mass, dt);
    let fb: u128 = grav_factor(b_mass, dt);
    let dxa: i128 = (a_pos.x as i128) - (b_pos.x as i128);
    let dya: i128 = (a_pos.y as i128) - (b_pos.y as i128);
    let da = Vec2i { x: pull_component(dxa, fb, den), y: pull_component(dya, fb, den) };
    let db = Vec2i { x: pull_component(-dxa, fa, den), y: pull_component(-dya, fa, den) };
    proof {
        assert(-dxa == (b_pos.x as int) - (a_pos.x as int));
        assert(-dya == (b_pos.y as int) - (a_pos.y as int));
    }
    (da, db)
}

/// The saturated pull factor of a mass over a step.
fn grav_factor(mass: i64, dt: i64) -> (r: u128)
    requires
        mass >= 0,
        dt >= 0,
    ensures
        r as int == spec_grav_factor(mass as int, dt as int),
{
    let f1: u128 = sat_mul_u(mass as u128, G as u128);
    let f2: u128 = sat_mul_u(f1, GRAV_SCALE as u128);
    sat_mul_u(f2, dt as u128)
}

/// One clamped delta component.
fn pull_component(diff: i128, factor: u128, den: u128) -> (r: i64)
    requires
        den >= 1,
    ensures
        r as int == spec_pull(diff as int, factor as int, den as int),
{
    let udiff: u128 = uabs128(diff);
    let n: u128 = sat_mul_u(udiff, factor);
    let q: u128 = n / den;
    signed_clamped(diff >= 0, q)
}

/// Where no intermediate saturates, the pull factor is exactly
/// `mass * G * GRAV_SCALE * dt`.
pub proof fn lemma_grav_factor_exact(mass: int, dt: int)
    requires
        0 <= mass <= 0x10000000000,
        0 <= dt <= 0x100000,
    ensures
        spec_grav_factor(mass, dt) == mass * (G as int) * (GRAV_SCALE as int) * dt,
{
    assert(0 <= mass * 50 <= 0x10000000000int * 50) by (nonlinear_arith)
        requires
            0 <= mass <= 0x10000000000int,
    ;
    assert(0 <= mass * 50 * 1_000_000 * dt <= u128::MAX as int && mass * 50 * 1_000_000
        <= u128::MAX as int) by (nonlinear_arith)
        requires
            0 <= mass * 50 <= 0x10000000000int * 50,
            0 <= dt <= 0x100000int,
    ;
}

/// Newton's third law, exactly, at the level of the gravity formula. For
/// two bodies at distinct positions, each velocity delta is the vector
/// `diff * k / (d2 * sqrt(d2))` with `k = G * GRAV_SCALE * other_mass * dt`
/// (see `spec_pull`). Before the shared division, the delta numerators
/// scale inversely with the masses, per component:
/// `num_a * m_a == num_b * m_b`; and the numerator vector of each delta
/// has squared length exactly `d2 * k^2`, that is, magnitude
/// `sqrt(d2) * k`, which over the shared denominator `d2 * sqrt(d2)` is
/// the Newtonian `G * m_other * dt / d2` (scaled by `GRAV_SCALE`).
pub proof fn lemma_pairwise_newton(a_pos: Vec2i, a_mass: int, b_pos: Vec2i, b_mass: int, dt: int)
    requires
        a_mass >= 0,
        b_mass >= 0,
        dt >= 0,
        a_pos != b_pos,
    ensures
        ({
            let dx = a_pos.x - b_pos.x;
            let dy = a_pos.y - b_pos.y;
            let ka = b_mass * (G as int) * (GRAV_SCALE as int) * dt;
            let kb = a_mass * (G as int) * (GRAV_SCALE as int) * dt;
            let d2 = dx * dx + dy * dy;
            &&& d2 > 0
            &&& (iabs(dx) * ka) * a_mass == (iabs(dx) * kb) * b_mass
            &&& (iabs(dy) * ka) * a_mass == (iabs(dy) * kb) * b_mass
            &&& (dx * ka) * (dx * ka) + (dy * ka) * (dy * ka) == d2 * (ka * ka)
            &&& (dx * kb) * (dx * kb) + (dy * kb) * (dy * kb) == d2 * (kb * kb)
        }),
{
    let dx = a_pos.x - b_pos.x;
    let dy = a_pos.y - b_pos.y;
    let ka = b_mass * (G as int) * (GRAV_SCALE as int) * dt;
    let kb = a_mass * (G as int) * (GRAV_SCALE as int) * dt;
    let d2 = dx * dx + dy * dy;
    assert(d2 > 0) by (nonlinear_arith)
        requires
            !(dx == 0 && dy == 0),
            d2 == dx * dx + dy * dy,
    ;
    assert((iabs(dx) * ka) * a_mass == (iabs(dx) * kb) * b_mass && (iabs(dy) * ka) * a_mass == (
    iabs(dy) * kb) * b_mass) by (nonlinear_arith)
        requires
            ka == b_mass * 50 * 1_000_000 * dt,
            kb == a_mass * 50 * 1_000_000 * dt,
    ;
    assert((dx * ka) * (dx * ka) + (dy * ka) * (dy * ka) == d2 * (ka * ka) && (dx * kb) * (dx * kb)
        + (dy * kb) * (dy * kb) == d2 * (kb * kb)) by (nonlinear_arith)
        requires
            d2 == dx * dx + dy * dy,
    ;
}

/// Each velocity delta of `spec_gravity_vel` opposes its body's offset
/// from the other body, componentwise: gravity only ever pulls the two
/// bodies toward each other.
pub proof fn lemma_gravity_direction(a_pos: Vec2i, a_mass: int, b_pos: Vec2i, b_mass: int, dt: int)
    requires
        a_mass >= 0,
        b_mass >= 0,
        dt >= 0,
    ensures
        ({
            let r = spec_gravity_vel(a_pos, a_mass, b_pos, b_mass, dt);
            &&& r.0.x * (a_pos.x - b_pos.x) <= 0
            &&& r.0.y * (a_pos.y - b_pos.y) <= 0
            &&& r.1.x * (b_pos.x - a_pos.x) <= 0
            &&& r.1.y * (b_pos.y - a_pos.y) <= 0
        }),
{
    let d2 = spec_dist2(a_pos, b_pos);
    let r = spec_gravity_vel(a_pos, a_mass, b_pos, b_mass, dt);
    if d2 == 0 {
        assert(r.0.x * (a_pos.x - b_pos.x) == 0 && r.0.y * (a_pos.y - b_pos.y) == 0 && r.1.x * (
        b_pos.x - a_pos.x) == 0 && r.1.y * (b_pos.y - a_pos.y) == 0) by (nonlinear_arith)
            requires
                r.0.x == 0 && r.0.y == 0 && r.1.x == 0 && r.1.y == 0,
        ;
    } else {
        assert(crate::vec2::sq(a_pos.x - b_pos.x) >= 0 && crate::vec2::sq(a_pos.y - b_pos.y) >= 0)
            by (nonlinear_arith);
        assert(1 <= d2 <= u128::MAX as int);
        lemma_grav_denom_pos(d2);
        lemma_factor_nonneg(a_mass, dt);
        lemma_factor_nonneg(b_mass, dt);
        lemma_pull_against(a_pos.x - b_pos.x, spec_grav_factor(b_mass, dt), spec_grav_denom(d2));
        lemma_pull_against(a_pos.y - b_pos.y, spec_grav_factor(b_mass, dt), spec_grav_denom(d2));
        lemma_pull_against(b_pos.x - a_pos.x, spec_grav_factor(a_mass, dt), spec_grav_denom(d2));
        lemma_pull_against(b_pos.y - a_pos.y, spec_grav_factor(a_mass, dt), spec_grav_denom(d2));
    }
}

/// The pull factor is never negative.
proof fn lemma_factor_nonneg(mass: int, dt: int)
    requires
        mass >= 0,
        dt >= 0,
    ensures
        spec_grav_factor(mass, dt) >= 0,
{
    assert(mass * 50 >= 0) by (nonlinear_arith)
        requires
            mass >= 0,
    ;
    assert(sat_u(sat_u(mass * 50) * 1_000_000) * dt >= 0) by (nonlinear_arith)
        requires
            sat_u(sat_u(mass * 50) * 1_000_000) >= 0,
            dt >= 0,
    ;
}

/// A pull component never points along its own offset.
proof fn lemma_pull_against(diff: int, factor: int, den: int)
    requires
        factor >= 0,
        den >= 1,
    ensures
        spec_pull(diff, factor, den) * diff <= 0,
{
    assert(iabs(diff) * factor >= 0) by (nonlinear_arith)
        requires
            iabs(diff) >= 0,
            factor >= 0,
    ;
    let q = sat_u(iabs(diff) * factor) / den;
    vstd::arithmetic::div_mod::lemma_div_pos_is_pos(sat_u(iabs(diff) * factor), den);
    if diff >= 0 {
        assert(cl64(-q) * diff <= 0) by (nonlinear_arith)
            requires
                diff >= 0,
                cl64(-q) <= 0,
        ;
    } else {
        assert(cl64(q) * diff <= 0) by (nonlinear_arith)
            requires
                diff < 0,
                cl64(q) >= 0,
        ;
    }
}

/// A body with its velocity replaced and everything else kept.
pub open spec fn with_vel(b: CelestialBody, v: Vec2i) -> CelestialBody {
    CelestialBody { mov: Movable { vel: v, ..b.mov }, ..b }
}

/// The body sequence after one pairwise interaction between the bodies at
/// positions `i` and `j`: both velocities gain their deltas, computed from
/// the state before either changes.
pub open spec fn spec_apply_pair(bs: Seq<CelestialBody>, i: int, j: int, dt: int) -> Seq<
    CelestialBody,
> {
    let bi = bs[i];
    let bj = bs[j];
    let r = spec_gravity_vel(bi.mov.pos, bi.mov.mass as int, bj.mov.pos, bj.mov.mass as int, dt);
    bs.update(i, with_vel(bi, spec_add(bi.mov.vel, r.0))).update(
        j,
        with_vel(bj, spec_add(bj.mov.vel, r.1)),
    )
}

/// The sequence after the pairs `(idxs[a], idxs[a+1]) .. (idxs[a], idxs[b-1])`
/// have been applied, in that order.
pub open spec fn spec_pairs_inner(
    bs: Seq<CelestialBody>,
    idxs: Seq<usize>,
    a: int,
    b: int,
    dt: int,
) -> Seq<CelestialBody>
    decreases b,
{
    if a < 0 || b <= a + 1 {
        bs
    } else {
        spec_apply_pair(
            spec_pairs_inner(bs, idxs, a, b - 1, dt),
            idxs[a] as int,
            idxs[b - 1] as int,
            dt,
        )
    }
}

/// The sequence after all pairs drawn from the first `a` rows have been
/// applied: row `r` pairs `idxs[r]` with every later index.
pub open spec fn spec_pairs_outer(bs: Seq<CelestialBody>, idxs: Seq<usize>, a: int, dt: int) -> Seq<
    CelestialBody,
>
    decreases a,
{
    if a <= 0 {
        bs
    } else {
        spec_pairs_inner(spec_pairs_outer(bs, idxs, a - 1, dt), idxs, a - 1, idxs.len() as int, dt)
    }
}

/// The all-pairs gravity pass over the bodies selected by `idxs`: every
/// unordered pair interacts exactly once.
pub open spec fn spec_apply_gravity_bodies(
    bs: Seq<CelestialBody>,
    idxs: Seq<usize>,
    dt: int,
) -> Seq<CelestialBody> {
    spec_pairs_outer(bs, idxs, idxs.len() as int, dt)
}

/// The indices are valid and name each body at most once.
pub open spec fn idxs_ok(bs: Seq<CelestialBody>, idxs: Seq<usize>) -> bool {
    &&& forall|a: int| 0 <= a < idxs.len() ==> (#[trigger] idxs[a]) < bs.len()
    &&& forall|a: int, b: int|
        0 <= a < b < idxs.len() ==> (#[trigger] idxs[a]) != (#[trigger] idxs[b])
}

/// Every body in the sequence is well-formed.
pub open spec fn bodies_wf(bs: Seq<CelestialBody>) -> bool {
    forall|k: int| 0 <= k < bs.len() ==> body_wf(#[trigger] bs[k])
}

/// Replace the velocity of one body in place.
pub(crate) fn set_vel(bodies: &mut Vec<CelestialBody>, i: usize, v: Vec2i)
    requires
        i < old(bodies)@.len(),
    ensures
        final (bodies)@ == old(bodies)@.update(i as int, with_vel(old(bodies)@[i as int], v)),
{
    let b = &mut bodies[i];
    b.mov.vel = v;
}

/// Apply gravity across the bodies selected by `idxs`, all pairs, each
/// unordered pair exactly once, using positions and masses as they stood
/// on entry (positions and masses do not change during the pass).
pub fn apply_gravity_to_celestial_bodies(bodies: &mut Vec<CelestialBody>, idxs: &Vec<usize>, dt: i64)
    requires
        idxs_ok(old(bodies)@, idxs@),
        bodies_wf(old(bodies)@),
        dt >= 0,
    ensures
        final (bodies)@ == spec_apply_gravity_bodies(old(bodies)@, idxs@, dt as int),
        final (bodies)@.len() == old(bodies)@.len(),
        forall|k: int|
            0 <= k < old(bodies)@.len() ==> (#[trigger] final (bodies)@[k]) == with_vel(
                old(bodies)@[k],
                final (bodies)@[k].mov.vel,
            ),
        forall|k: int|
            0 <= k < old(bodies)@.len() && (forall|a: int|
                0 <= a < idxs@.len() ==> (#[trigger] idxs@[a]) != k) ==> (#[trigger] final (
            bodies)@[k]) == old(bodies)@[k],
{
    let ghost bs0 = bodies@;
    let n: usize = idxs.len();
    let mut a: usize = 0;
    while a < n
        invariant
            n == idxs@.len(),
            a <= n,
            idxs_ok(bs0, idxs@),
            bodies_wf(bs0),
            dt >= 0,
            bodies@.len() == bs0.len(),
            bodies@ == spec_pairs_outer(bs0, idxs@, a as int, dt as int),
            forall|k: int|
                0 <= k < bs0.len() ==> (#[trigger] bodies@[k]) == with_vel(
                    bs0[k],
                    bodies@[k].mov.vel,
                ),
            forall|k: int|
                0 <= k < bs0.len() && (forall|a2: int|
                    0 <= a2 < idxs@.len() ==> (#[trigger] idxs@[a2]) != k) ==> (#[trigger] bodies@[
                k]) == bs0[k],
        decreases n - a,
    {
        let mut b: usize = a + 1;
        let ghost row0 = bodies@;
        while b < n
            invariant
                n == idxs@.len(),
                a < n,
                a + 1 <= b <= n,
                idxs_ok(bs0, idxs@),
                bodies_wf(bs0),
                dt >= 0,
                bodies@.len() == bs0.len(),
                row0 == spec_pairs_outer(bs0, idxs@, a as int, dt as int),
                bodies@ == spec_pairs_inner(row0, idxs@, a as int, b as int, dt as int),
                forall|k: int|
                    0 <= k < bs0.len() ==> (#[trigger] bodies@[k]) == with_vel(
                        bs0[k],
                        bodies@[k].mov.vel,
                    ),
                forall|k: int|
                0 <= k < bs0.len() && (forall|a2: int|
                    0 <= a2 < idxs@.len() ==> (#[trigger] idxs@[a2]) != k) ==> (#[trigger] bodies@[
                k]) == bs0[k],
            decreases n - b,
        {
            let i: usize = idxs[a];
            let j: usize = idxs[b];
            let r = gravity_vel(
                &bodies[i].mov.pos,
                bodies[i].mov.mass,
                &bodies[j].mov.pos,
                bodies[j].mov.mass,
                dt,
            );
            let nvi = bodies[i].mov.vel.add(&r.0);
            let nvj = bodies[j].mov.vel.add(&r.1);
            set_vel(bodies, i, nvi);
            set_vel(bodies, j, nvj);
            b = b + 1;
        }
        a = a + 1;
        proof {
            assert(bodies@ == spec_pairs_outer(bs0, idxs@, a as int, dt as int));
        }
    }
}

/// The state of a minor body after one step of its parent's pull: only the
/// velocity changes, by the delta of a single one-sided interaction.
pub open spec fn spec_parent_pull(b: CelestialBody, parent: CelestialBody, dt: int) -> CelestialBody {
    let r = spec_gravity_vel(
        b.mov.pos,
        b.mov.mass as int,
        parent.mov.pos,
        parent.mov.mass as int,
        dt,
    );
    with_vel(b, spec_add(b.mov.vel, r.0))
}

/// Pull every minor body (the suffix of the arena from `minor_start` on)
/// toward the one designated parent. The parent feels nothing, no minor
/// body feels another: each new state is a function of that body and the
/// parent alone.
pub fn apply_gravity_asteroids(
    bodies: &mut Vec<CelestialBody>,
    minor_start: usize,
    parent: usize,
    dt: i64,
)
    requires
        parent < minor_start,
        minor_start <= old(bodies)@.len(),
        bodies_wf(old(bodies)@),
        dt >= 0,
    ensures
        final (bodies)@.len() == old(bodies)@.len(),
        forall|k: int|
            0 <= k < minor_start ==> (#[trigger] final (bodies)@[k]) == old(bodies)@[k],
        forall|k: int|
            minor_start <= k < old(bodies)@.len() ==> (#[trigger] final (bodies)@[k])
                == spec_parent_pull(old(bodies)@[k], old(bodies)@[parent as int], dt as int),
{
    let ghost bs0 = bodies@;
    let n: usize = bodies.len();
    let mut k: usize = minor_start;
    while k < n
        invariant
            n == bs0.len(),
            minor_start <= k <= n,
            dt >= 0,
            parent < minor_start,
            bodies@.len() == bs0.len(),
            forall|m: int| 0 <= m < minor_start ==> (#[trigger] bodies@[m]) == bs0[m],
            forall|m: int| k <= m < n ==> (#[trigger] bodies@[m]) == bs0[m],
            forall|m: int|
                minor_start <= m < k ==> (#[trigger] bodies@[m]) == spec_parent_pull(
                    bs0[m],
                    bs0[parent as int],
                    dt as int,
                ),
            bodies_wf(bs0),
        decreases n - k,
    {
        let r = gravity_vel(
            &bodies[k].mov.pos,
            bodies[k].mov.mass,
            &bodies[parent].mov.pos,
            bodies[parent].mov.mass,
            dt,
        );
        let nv = bodies[k].mov.vel.add(&r.0);
        set_vel(bodies, k, nv);
        k = k + 1;
    }
}

} // verus!
