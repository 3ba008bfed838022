//! Procedural scenario generation: a seeded deterministic generator and
//! the construction of the whole system — star, planets, moons, asteroid
//! belt and ship — from one integer seed. Identical seeds rebuild
//! bit-identical worlds; `lemma_initialize_deterministic` proves it.

use vstd::prelude::*;
use vstd::arithmetic::div_mod::{lemma_div_pos_is_pos, lemma_multiply_divide_lt};
use crate::body::{
    get_initial_position_and_velocity, spec_hill_radius, spec_initial_pv, CelestialBody,
    CelestialBodyType, DisplayColor,
};
use crate::generators::dec_seq;
use crate::math::{cl64, muldiv, tdiv};
use crate::movable::Movable;
use crate::ship::Ship;
use crate::vec2::{spec_add, v2, Vec2i};
use crate::world::World;

verus! {

/// Multiplier of the linear congruential state step.
pub const RNG_MULTIPLIER: u64 = 6364136223846793005;

/// Increment of the linear congruential state step.
pub const RNG_INCREMENT: u64 = 1442695040888963407;

/// The next generator state: a 64-bit linear congruential step.
#[verifier::opaque]
pub open spec fn spec_rng_step(state: u64) -> u64 {
    (((state * RNG_MULTIPLIER) + RNG_INCREMENT) % 0x10000000000000000) as u64
}

/// The 32-bit output drawn from a state: an xor-shift of the high bits,
/// rotated by the top five bits.
#[verifier::opaque]
pub open spec fn spec_rng_output(state: u64) -> u32 {
    let xs = ((((state >> 18) ^ state) >> 27) % 0x100000000) as u32;
    let rot = (state >> 59) as u32;
    if rot == 0 {
        xs
    } else {
        (xs >> rot) | (xs << (32 - rot))
    }
}

/// The state a fresh generator starts in for a seed.
#[verifier::opaque]
pub open spec fn spec_rng_new(seed: u64) -> u64 {
    spec_rng_step((((spec_rng_step(0) + seed) % 0x10000000000000000) as u64))
}

/// One ranged draw: the value in `[lo, hi)` picked by the output of
/// `state`, and the stepped state.
#[verifier::opaque]
pub open spec fn spec_draw(state: u64, lo: int, hi: int) -> (int, u64) {
    (lo + (spec_rng_output(state) * (hi - lo)) / 0x100000000, spec_rng_step(state))
}

/// The seeded deterministic generator that drives scenario generation.
pub struct ScenarioRng {
    pub state: u64,
}

impl ScenarioRng {
    /// Seed a fresh generator.
    pub fn new(seed: u64) -> (r: ScenarioRng)
        ensures
            r.state == spec_rng_new(seed),
    {
        proof {
            reveal(spec_rng_new);
        }
        let mut r = ScenarioRng { state: 0 };
        r.next();
        let wrapped: u64 = (((r.state as u128) + (seed as u128)) % 0x10000000000000000) as u64;
        r.state = wrapped;
        r.next();
        r
    }

    /// Draw one raw 32-bit value and step the state.
    pub fn next(&mut self) -> (r: u32)
        ensures
            final (self).state == spec_rng_step(old(self).state),
            r == spec_rng_output(old(self).state),
    {
        proof {
            reveal(spec_rng_step);
            reveal(spec_rng_output);
        }
        let oldstate: u64 = self.state;
        let stepped: u128 = ((oldstate as u128) * (RNG_MULTIPLIER as u128) + (
        RNG_INCREMENT as u128)) % 0x10000000000000000;
        self.state = stepped as u64;
        proof {
            assert(self.state == spec_rng_step(oldstate)) by {
                assert(((oldstate as u128) * (RNG_MULTIPLIER as u128) + (RNG_INCREMENT as u128))
                    as int == oldstate * RNG_MULTIPLIER + RNG_INCREMENT) by (nonlinear_arith);
            }
            assert((oldstate >> 59) < 32) by (bit_vector);
        }
        let xs: u32 = ((((oldstate >> 18) ^ oldstate) >> 27) % 0x100000000) as u32;
        let rot: u32 = (oldstate >> 59) as u32;
        if rot == 0 {
            xs
        } else {
            (xs >> rot) | (xs << (32 - rot))
        }
    }

    /// Draw a value in `[lo, hi)`.
    pub fn gen_range(&mut self, lo: i64, hi: i64) -> (r: i64)
        requires
            lo < hi,
            hi - lo <= 0x100000000,
        ensures
            r as int == spec_draw(old(self).state, lo as int, hi as int).0,
            final (self).state == spec_draw(old(self).state, lo as int, hi as int).1,
            lo <= r < hi,
    {
        proof {
            reveal(spec_draw);
        }
        let x: u32 = self.next();
        let span: u64 = (hi - lo) as u64;
        proof {
            lemma_draw_in_range(x as int, span as int);
        }
        let prod: u64 = (x as u64) * span;
        let q: u64 = prod / 0x100000000;
        lo + (q as i64)
    }
}

/// A milli-degree angle drawn uniformly from the half-open full turn.
pub fn get_random_angle(rng: &mut ScenarioRng) -> (r: i64)
    ensures
        r as int == spec_draw(old(rng).state, -180_000, 180_000).0,
        final (rng).state == spec_draw(old(rng).state, -180_000, 180_000).1,
        -180_000 <= r < 180_000,
{
    rng.gen_range(-180_000, 180_000)
}

/// A fraction `num/den` of a hill radius, floored at one so it can serve
/// as an orbital distance.
pub open spec fn spec_dist_frac(hr: int, num: int, den: int) -> int {
    let m = cl64(tdiv(hr * num, den));
    if m < 1 {
        1
    } else {
        m
    }
}

/// Scale a hill radius down to an orbital distance, never below one.
pub fn dist_frac(hr: i64, num: i64, den: i64) -> (r: i64)
    requires
        den >= 1,
    ensures
        r as int == spec_dist_frac(hr as int, num as int, den as int),
        r >= 1,
{
    let m: i64 = muldiv(hr, num, den);
    if m < 1 {
        1
    } else {
        m
    }
}

/// A body's hill radius as a plain value; zero for the unbounded root.
pub open spec fn spec_hill_val(b: CelestialBody) -> int {
    match b.hill_radius {
        Option::Some(h) => h as int,
        Option::None => 0,
    }
}

/// Read a body's hill radius; zero for the unbounded root.
pub fn hill_val(b: &CelestialBody) -> (r: i64)
    ensures
        r as int == spec_hill_val(*b),
{
    match b.hill_radius {
        Option::Some(h) => h,
        Option::None => 0,
    }
}

/// What `CelestialBody::new` pins down, phrased over a body value: an
/// anchored root with unbounded influence.
pub open spec fn root_matches(
    b: CelestialBody,
    pos: Vec2i,
    mass: int,
    radius: int,
    t: CelestialBodyType,
    c: DisplayColor,
    name: Seq<char>,
) -> bool {
    &&& b.mov == Movable::spec_new_at(pos, Vec2i { x: 0i64, y: 0i64 }, mass as i64, 0)
    &&& b.radius == radius as i64
    &&& b.cb_type == t
    &&& b.hill_radius is None
    &&& b.color == c
    &&& b.name@ == name
}

/// What `CelestialBody::from_parent` pins down, phrased over a body
/// value: a child on a circular orbit with a hill radius computed once
/// from its parent.
pub open spec fn child_matches(
    b: CelestialBody,
    parent: CelestialBody,
    distance: int,
    angle: int,
    mass: int,
    radius: int,
    t: CelestialBodyType,
    c: DisplayColor,
    name: Seq<char>,
) -> bool {
    let pv = spec_initial_pv(parent.mov.mass as int, distance, angle);
    &&& b.mov == Movable::spec_new_at(
        spec_add(parent.mov.pos, pv.0),
        spec_add(parent.mov.vel, pv.1),
        mass as i64,
        0,
    )
    &&& b.radius == radius as i64
    &&& b.cb_type == t
    &&& b.hill_radius == Some(
        (spec_hill_radius(parent.mov.pos, parent.mov.mass as int, b.mov.pos, mass) as i64),
    )
    &&& b.color == c
    &&& b.name@ == name
}

/// The parameters of one belt asteroid, as drawn from the generator.
pub struct AstParams {
    pub angle_mdeg: int,
    pub dist: int,
    pub radius: int,
    pub mass: int,
    pub deg: int,
    pub ord: int,
}

/// The asteroids of one belt degree, from the `ord`-th on, and the
/// generator state after them. Each asteroid is pushed a random bit
/// further out than the previous one's outer edge.
pub open spec fn spec_belt_inner(
    state: u64,
    deg: int,
    i: int,
    cnt: int,
    last_dist: int,
    last_radius: int,
) -> (Seq<AstParams>, u64)
    decreases cnt - i,
{
    if i >= cnt {
        (Seq::<AstParams>::empty(), state)
    } else {
        let inc = spec_draw(state, 0, 1000);
        let dr = spec_draw(inc.1, 500_000, 1_000_000);
        let rr = spec_draw(dr.1, 10_000, 40_000);
        let mr = spec_draw(rr.1, 50, 100);
        let dist = 405_000_000 + last_dist + last_radius + dr.0;
        let radius = 10_000 + rr.0;
        let p = AstParams {
            angle_mdeg: deg * 1000 + inc.0,
            dist,
            radius,
            mass: mr.0,
            deg,
            ord: i,
        };
        let rest = spec_belt_inner(mr.1, deg, i + 1, cnt, dist - 405_000_000, radius);
        (seq![p] + rest.0, rest.1)
    }
}

/// The whole belt up to degree `k`, and the generator state after it:
/// one to four asteroids per whole degree of the circle.
pub open spec fn spec_belt_outer(state: u64, k: int) -> (Seq<AstParams>, u64)
    decreases k,
{
    if k <= 0 {
        (Seq::<AstParams>::empty(), state)
    } else {
        let p = spec_belt_outer(state, k - 1);
        let cnt = spec_draw(p.1, 1, 5);
        let inner = spec_belt_inner(cnt.1, k - 1, 0, cnt.0, 0, 0);
        (p.0 + inner.0, inner.1)
    }
}

/// The label of a belt asteroid: its degree and its ordinal within it.
pub open spec fn spec_ast_name(deg: nat, i: nat) -> Seq<char> {
    "Ast "@ + dec_seq(deg) + "/"@ + dec_seq(i)
}

/// A belt asteroid is a minor child of the star with its drawn
/// parameters and its degree label.
pub open spec fn ast_matches(b: CelestialBody, sol: CelestialBody, p: AstParams) -> bool {
    child_matches(
        b,
        sol,
        p.dist,
        p.angle_mdeg,
        p.mass,
        p.radius,
        CelestialBodyType::Asteroid,
        DisplayColor::Gray,
        spec_ast_name(p.deg as nat, p.ord as nat),
    )
}

/// Everything `initialize` pins down about the world it builds from a
/// seed and a center: the twelve major bodies with their fixed masses,
/// radii, categories, palette colors and names, at angles drawn in
/// order; the ship placed just off a randomly chosen major body; and the
/// whole asteroid belt with its drawn parameters. Together with
/// `lemma_initialize_deterministic` this makes scenario generation a
/// pure function of the seed.
pub open spec fn init_post(seed: u64, center: Vec2i, w: World) -> bool {
    let s0 = spec_rng_new(seed);
    let d1 = spec_draw(s0, -180_000, 180_000);
    let d2 = spec_draw(d1.1, -180_000, 180_000);
    let d3 = spec_draw(d2.1, -180_000, 180_000);
    let d4 = spec_draw(d3.1, -180_000, 180_000);
    let d5 = spec_draw(d4.1, -180_000, 180_000);
    let d6 = spec_draw(d5.1, -180_000, 180_000);
    let d7 = spec_draw(d6.1, -180_000, 180_000);
    let d8 = spec_draw(d7.1, -180_000, 180_000);
    let d9 = spec_draw(d8.1, -180_000, 180_000);
    let d10 = spec_draw(d9.1, -180_000, 180_000);
    let d11 = spec_draw(d10.1, -180_000, 180_000);
    let pick = spec_draw(d11.1, 0, 12);
    let sangle = spec_draw(pick.1, -180_000, 180_000);
    let belt = spec_belt_outer(sangle.1, 360);
    &&& w.n_major == 12
    &&& w.parent == 0
    &&& w.bodies@.len() == 12 + belt.0.len()
    &&& root_matches(
        w.bodies@[0],
        center,
        30_000_000,
        7_000_000,
        CelestialBodyType::Star,
        DisplayColor::Orange,
        "Praxidike"@,
    )
    &&& child_matches(w.bodies@[1], w.bodies@[0], 60_000_000, d1.0, 750, 100_000,
        CelestialBodyType::Planet, DisplayColor::Brown, "Ananke"@)
    &&& child_matches(w.bodies@[2], w.bodies@[0], 105_000_000, d2.0, 12_000, 210_000,
        CelestialBodyType::Planet, DisplayColor::Beige, "Iocaste"@)
    &&& child_matches(w.bodies@[3], w.bodies@[0], 150_000_000, d3.0, 15_000, 300_000,
        CelestialBodyType::Planet, DisplayColor::Blue, "Ganymede"@)
    &&& child_matches(w.bodies@[4], w.bodies@[3], spec_dist_frac(spec_hill_val(w.bodies@[3]), 14,
        100), d4.0, 900, 80_000, CelestialBodyType::Moon, DisplayColor::Gray, "Thebe"@)
    &&& child_matches(w.bodies@[5], w.bodies@[0], 225_000_000, d5.0, 24_000, 200_000,
        CelestialBodyType::Planet, DisplayColor::Red, "Themisto"@)
    &&& child_matches(w.bodies@[6], w.bodies@[5], spec_dist_frac(spec_hill_val(w.bodies@[5]), 9,
        100), d6.0, 100, 60_000, CelestialBodyType::Moon, DisplayColor::Gray, "Kalyke"@)
    &&& child_matches(w.bodies@[7], w.bodies@[5], spec_dist_frac(spec_hill_val(w.bodies@[5]), 15,
        100), d7.0, 90, 50_000, CelestialBodyType::Moon, DisplayColor::Gray, "Mneme"@)
    &&& child_matches(w.bodies@[8], w.bodies@[0], 795_000_000, d8.0, 150_000, 3_100_000,
        CelestialBodyType::Planet, DisplayColor::Beige, "Euanthe"@)
    &&& child_matches(w.bodies@[9], w.bodies@[8], spec_dist_frac(spec_hill_val(w.bodies@[8]), 14,
        100), d9.0, 90, 75_000, CelestialBodyType::Moon, DisplayColor::Gray, "Kale"@)
    &&& child_matches(w.bodies@[10], w.bodies@[8], spec_dist_frac(spec_hill_val(w.bodies@[8]), 23,
        100), d10.0, 130, 90_000, CelestialBodyType::Moon, DisplayColor::Gray, "Eurydome"@)
    &&& child_matches(w.bodies@[11], w.bodies@[8], spec_dist_frac(spec_hill_val(w.bodies@[8]), 31,
        100), d11.0, 95, 75_000, CelestialBodyType::Moon, DisplayColor::Gray, "Sponde"@)
    &&& forall|j: int|
        0 <= j < belt.0.len() ==> ast_matches(#[trigger] w.bodies@[12 + j], w.bodies@[0], belt.0[j])
    &&& w.ships@.len() == 1
    &&& ({
        let cb = w.bodies@[pick.0];
        let pv = spec_initial_pv(
            cb.mov.mass as int,
            spec_dist_frac(cb.radius as int, 3, 2),
            sangle.0,
        );
        let s = w.ships@[0];
        &&& s.mov == Movable::spec_new_at(
            spec_add(cb.mov.pos, pv.0),
            spec_add(cb.mov.vel, pv.1),
            1,
            0,
        )
        &&& s.state == crate::ship::ShipState::InSpace
        &&& s.store == crate::ship::ShipState::InSpace
        &&& s.fuel == 1_000_000
        &&& s.max_fuel == 1_000_000
        &&& s.in_hill_radius_of@.len() == 0
    })
}

/// Build the whole system from a seed: the star anchored at `center`,
/// five planets and six moons on drawn orbits, one ship placed just off
/// a randomly chosen major body, and an asteroid belt of one to four
/// minor bodies per whole degree of the circle.
#[verifier::rlimit(100)]
#[verifier::spinoff_prover]
pub fn initialize(seed: u64, center: Vec2i) -> (w: World)
    ensures
        init_post(seed, center, w),
        crate::world::world_wf(w),
{
    let mut rng = ScenarioRng::new(seed);
    let mut bodies: Vec<CelestialBody> = Vec::new();
    let sol = CelestialBody::new(
        center,
        30_000_000,
        7_000_000,
        CelestialBodyType::Star,
        DisplayColor::Orange,
        String::from_str("Praxidike"),
    );
    bodies.push(sol);
    let a1: i64 = get_random_angle(&mut rng);
    let p0 = CelestialBody::from_parent(
        &bodies[0],
        60_000_000,
        a1,
        750,
        100_000,
        CelestialBodyType::Planet,
        DisplayColor::Brown,
        String::from_str("Ananke"),
    );
    bodies.push(p0);
    let a2: i64 = get_random_angle(&mut rng);
    let p1 = CelestialBody::from_parent(
        &bodies[0],
        105_000_000,
        a2,
        12_000,
        210_000,
        CelestialBodyType::Planet,
        DisplayColor::Beige,
        String::from_str("Iocaste"),
    );
    bodies.push(p1);
    let a3: i64 = get_random_angle(&mut rng);
    let p2 = CelestialBody::from_parent(
        &bodies[0],
        150_000_000,
        a3,
        15_000,
        300_000,
        CelestialBodyType::Planet,
        DisplayColor::Blue,
        String::from_str("Ganymede"),
    );
    bodies.push(p2);
    let h3: i64 = hill_val(&bodies[3]);
    let dist4: i64 = dist_frac(h3, 14, 100);
    let a4: i64 = get_random_angle(&mut rng);
    let p2_0 = CelestialBody::from_parent(
        &bodies[3],
        dist4,
        a4,
        900,
        80_000,
        CelestialBodyType::Moon,
        DisplayColor::Gray,
        String::from_str("Thebe"),
    );
    bodies.push(p2_0);
    let a5: i64 = get_random_angle(&mut rng);
    let p3 = CelestialBody::from_parent(
        &bodies[0],
        225_000_000,
        a5,
        24_000,
        200_000,
        CelestialBodyType::Planet,
        DisplayColor::Red,
        String::from_str("Themisto"),
    );
    bodies.push(p3);
    let h5: i64 = hill_val(&bodies[5]);
    let dist6: i64 = dist_frac(h5, 9, 100);
    let a6: i64 = get_random_angle(&mut rng);
    let p3_0 = CelestialBody::from_parent(
        &bodies[5],
        dist6,
        a6,
        100,
        60_000,
        CelestialBodyType::Moon,
        DisplayColor::Gray,
        String::from_str("Kalyke"),
    );
    bodies.push(p3_0);
    let dist7: i64 = dist_frac(h5, 15, 100);
    let a7: i64 = get_random_angle(&mut rng);
    let p3_1 = CelestialBody::from_parent(
        &bodies[5],
        dist7,
        a7,
        90,
        50_000,
        CelestialBodyType::Moon,
        DisplayColor::Gray,
        String::from_str("Mneme"),
    );
    bodies.push(p3_1);
    let a8: i64 = get_random_angle(&mut rng);
    let p4 = CelestialBody::from_parent(
        &bodies[0],
        795_000_000,
        a8,
        150_000,
        3_100_000,
        CelestialBodyType::Planet,
        DisplayColor::Beige,
        String::from_str("Euanthe"),
    );
    bodies.push(p4);
    let h8: i64 = hill_val(&bodies[8]);
    let dist9: i64 = dist_frac(h8, 14, 100);
    let a9: i64 = get_random_angle(&mut rng);
    let p4_0 = CelestialBody::from_parent(
        &bodies[8],
        dist9,
        a9,
        90,
        75_000,
        CelestialBodyType::Moon,
        DisplayColor::Gray,
        String::from_str("Kale"),
    );
    bodies.push(p4_0);
    let dist10: i64 = dist_frac(h8, 23, 100);
    let a10: i64 = get_random_angle(&mut rng);
    let p4_1 = CelestialBody::from_parent(
        &bodies[8],
        dist10,
        a10,
        130,
        90_000,
        CelestialBodyType::Moon,
        DisplayColor::Gray,
        String::from_str("Eurydome"),
    );
    bodies.push(p4_1);
    let dist11: i64 = dist_frac(h8, 31, 100);
    let a11: i64 = get_random_angle(&mut rng);
    let p4_2 = CelestialBody::from_parent(
        &bodies[8],
        dist11,
        a11,
        95,
        75_000,
        CelestialBodyType::Moon,
        DisplayColor::Gray,
        String::from_str("Sponde"),
    );
    bodies.push(p4_2);

    // the ship, just off a randomly chosen major body
    let pickv: i64 = rng.gen_range(0, 12);
    let pick: usize = pickv as usize;
    let sdist: i64 = dist_frac(bodies[pick].radius, 3, 2);
    let sangle: i64 = get_random_angle(&mut rng);
    proof {
        assert(bodies@[pick as int].mov.mass >= 0);
    }
    let pv = get_initial_position_and_velocity(bodies[pick].mov.mass, sdist, sangle);
    let spos: Vec2i = bodies[pick].mov.pos.add(&pv.0);
    let svel: Vec2i = bodies[pick].mov.vel.add(&pv.1);
    let ship = Ship::new(spos, svel, 1_000_000);

    // the asteroid belt: one to four minor bodies per whole degree
    build_belt(&mut rng, &mut bodies);

    let mut ships: Vec<Ship> = Vec::new();
    ships.push(ship);
    World { bodies, n_major: 12, parent: 0, ships }
}

/// Draw and append one belt asteroid; one unfolding step of
/// `spec_belt_inner`.
#[verifier::rlimit(60)]
#[verifier::spinoff_prover]
fn build_one_asteroid(
    rng: &mut ScenarioRng,
    bodies: &mut Vec<CelestialBody>,
    deg: usize,
    ord: usize,
    last_distance: i64,
    last_radius: i64,
) -> (out: (i64, i64))
    requires
        deg < 360,
        0 <= last_distance <= 5_000_000,
        0 <= last_radius < 50_000,
        old(bodies)@.len() >= 1,
        old(bodies)@[0].mov.mass == 30_000_000,
    ensures
        ({
            let inc = spec_draw(old(rng).state, 0, 1000);
            let dr = spec_draw(inc.1, 500_000, 1_000_000);
            let rr = spec_draw(dr.1, 10_000, 40_000);
            let mr = spec_draw(rr.1, 50, 100);
            let dist = 405_000_000 + last_distance + last_radius + dr.0;
            let radius = 10_000 + rr.0;
            let p = AstParams {
                angle_mdeg: deg * 1000 + inc.0,
                dist,
                radius,
                mass: mr.0,
                deg: deg as int,
                ord: ord as int,
            };
            &&& final (rng).state == mr.1
            &&& final (bodies)@.len() == old(bodies)@.len() + 1
            &&& forall|k: int|
                0 <= k < old(bodies)@.len() ==> (#[trigger] final (bodies)@[k]) == old(bodies)@[k]
            &&& ast_matches(final (bodies)@[old(bodies)@.len() as int], old(bodies)@[0], p)
            &&& crate::body::body_wf(final (bodies)@[old(bodies)@.len() as int])
            &&& out.0 as int == dist - 405_000_000
            &&& out.1 as int == radius
            &&& 0 <= out.0 as int <= last_distance + 1_050_000
            &&& 10_000 <= out.1 < 50_000
        }),
{
    let inc: i64 = rng.gen_range(0, 1000);
    let dplus: i64 = rng.gen_range(500_000, 1_000_000);
    let rplus: i64 = rng.gen_range(10_000, 40_000);
    let mass: i64 = rng.gen_range(50, 100);
    let distance: i64 = 405_000_000 + last_distance + last_radius + dplus;
    let radius: i64 = 10_000 + rplus;
    let angle_mdeg: i64 = (deg as i64) * 1000 + inc;
    let mut name: String = String::from_str("Ast ");
    let ds: String = crate::generators::dec_string(deg as u64);
    name.append(ds.as_str());
    name.append("/");
    let is_: String = crate::generators::dec_string(ord as u64);
    name.append(is_.as_str());
    proof {
        assert(name@ =~= spec_ast_name(deg as nat, ord as nat));
    }
    let ast = CelestialBody::from_parent(
        &bodies[0],
        distance,
        angle_mdeg,
        mass,
        radius,
        CelestialBodyType::Asteroid,
        DisplayColor::Gray,
        name,
    );
    bodies.push(ast);
    (distance - 405_000_000, radius)
}

/// Append the asteroids of one belt degree: `cnt` minor bodies, each a
/// random step further out than the last one's outer edge.
#[verifier::rlimit(100)]
#[verifier::spinoff_prover]
fn build_belt_degree(rng: &mut ScenarioRng, bodies: &mut Vec<CelestialBody>, deg: usize, cnt: usize)
    requires
        1 <= cnt <= 4,
        deg < 360,
        old(bodies)@.len() >= 12,
        old(bodies)@[0].mov.mass == 30_000_000,
        forall|k: int|
            0 <= k < old(bodies)@.len() ==> crate::body::body_wf(#[trigger] old(bodies)@[k]),
    ensures
        ({
            let inner = spec_belt_inner(old(rng).state, deg as int, 0, cnt as int, 0, 0);
            &&& final (bodies)@.len() == old(bodies)@.len() + inner.0.len()
            &&& final (rng).state == inner.1
            &&& forall|k: int|
                0 <= k < old(bodies)@.len() ==> (#[trigger] final (bodies)@[k]) == old(bodies)@[k]
            &&& forall|j: int|
                0 <= j < inner.0.len() ==> ast_matches(
                    #[trigger] final (bodies)@[old(bodies)@.len() + j],
                    old(bodies)@[0],
                    inner.0[j],
                )
            &&& forall|k: int|
                0 <= k < final (bodies)@.len() ==> crate::body::body_wf(
                    #[trigger] final (bodies)@[k],
                )
        }),
{
    let ghost s_in0 = rng.state;
    let ghost bs0 = bodies@;
    let ghost blen0 = bodies@.len() as int;
    let ghost mut produced: Seq<AstParams> = Seq::<AstParams>::empty();
    let mut last_distance: i64 = 0;
    let mut last_radius: i64 = 0;
    let mut i: usize = 0;
    while i < cnt
        invariant
            i <= cnt,
            1 <= cnt <= 4,
            deg < 360,
            bs0 == old(bodies)@,
            blen0 == bs0.len(),
            blen0 >= 12,
            bs0[0].mov.mass == 30_000_000,
            0 <= last_distance,
            last_distance <= i * 1_050_000,
            0 <= last_radius,
            last_radius < 50_000,
            bodies@.len() == blen0 + produced.len(),
            produced.len() == i,
            forall|k: int| 0 <= k < blen0 ==> (#[trigger] bodies@[k]) == bs0[k],
            forall|j: int|
                0 <= j < produced.len() ==> ast_matches(
                    #[trigger] bodies@[blen0 + j],
                    bs0[0],
                    produced[j],
                ),
            ({
                let total = spec_belt_inner(s_in0, deg as int, 0, cnt as int, 0, 0);
                let rem = spec_belt_inner(
                    rng.state,
                    deg as int,
                    i as int,
                    cnt as int,
                    last_distance as int,
                    last_radius as int,
                );
                &&& total.0 == produced + rem.0
                &&& total.1 == rem.1
            }),
            forall|k: int| 0 <= k < bodies@.len() ==> crate::body::body_wf(#[trigger] bodies@[k]),
        decreases cnt - i,
    {
        let ghost st_iter = rng.state;
        let out = build_one_asteroid(rng, bodies, deg, i, last_distance, last_radius);
        last_distance = out.0;
        last_radius = out.1;
        i = i + 1;
        proof {
            let inc = spec_draw(st_iter, 0, 1000);
            let dr = spec_draw(inc.1, 500_000, 1_000_000);
            let rr = spec_draw(dr.1, 10_000, 40_000);
            let p = AstParams {
                angle_mdeg: deg * 1000 + inc.0,
                dist: 405_000_000 + (out.0 as int),
                radius: out.1 as int,
                mass: spec_draw(rr.1, 50, 100).0,
                deg: deg as int,
                ord: i as int - 1,
            };
            let rem_new = spec_belt_inner(
                rng.state,
                deg as int,
                i as int,
                cnt as int,
                last_distance as int,
                last_radius as int,
            );
            assert(produced + (seq![p] + rem_new.0) =~= (produced.push(p)) + rem_new.0);
            produced = produced.push(p);
        }
    }
}

/// Append the whole asteroid belt to the arena.
#[verifier::rlimit(60)]
fn build_belt(rng: &mut ScenarioRng, bodies: &mut Vec<CelestialBody>)
    requires
        old(bodies)@.len() == 12,
        old(bodies)@[0].mov.mass == 30_000_000,
        forall|k: int|
            0 <= k < old(bodies)@.len() ==> crate::body::body_wf(#[trigger] old(bodies)@[k]),
    ensures
        ({
            let outer = spec_belt_outer(old(rng).state, 360);
            &&& final (bodies)@.len() == 12 + outer.0.len()
            &&& final (rng).state == outer.1
            &&& forall|k: int|
                0 <= k < 12 ==> (#[trigger] final (bodies)@[k]) == old(bodies)@[k]
            &&& forall|j: int|
                0 <= j < outer.0.len() ==> ast_matches(
                    #[trigger] final (bodies)@[12 + j],
                    old(bodies)@[0],
                    outer.0[j],
                )
            &&& forall|k: int|
                0 <= k < final (bodies)@.len() ==> crate::body::body_wf(
                    #[trigger] final (bodies)@[k],
                )
        }),
{
    let ghost s_belt0 = rng.state;
    let ghost bs0 = bodies@;
    let mut deg: usize = 0;
    while deg < 360
        invariant
            deg <= 360,
            bs0 == old(bodies)@,
            bs0.len() == 12,
            bs0[0].mov.mass == 30_000_000,
            bodies@.len() == 12 + spec_belt_outer(s_belt0, deg as int).0.len(),
            rng.state == spec_belt_outer(s_belt0, deg as int).1,
            forall|k: int| 0 <= k < 12 ==> (#[trigger] bodies@[k]) == bs0[k],
            forall|j: int|
                0 <= j < spec_belt_outer(s_belt0, deg as int).0.len() ==> ast_matches(
                    #[trigger] bodies@[12 + j],
                    bs0[0],
                    spec_belt_outer(s_belt0, deg as int).0[j],
                ),
            forall|k: int| 0 <= k < bodies@.len() ==> crate::body::body_wf(#[trigger] bodies@[k]),
        decreases 360 - deg,
    {
        let ghost st_deg = rng.state;
        let ghost prev = spec_belt_outer(s_belt0, deg as int);
        let cntv: i64 = rng.gen_range(1, 5);
        let cnt: usize = cntv as usize;
        let ghost blen_pre = bodies@.len() as int;
        build_belt_degree(rng, bodies, deg, cnt);
        deg = deg + 1;
        proof {
            let inner = spec_belt_inner(spec_draw(st_deg, 1, 5).1, deg as int - 1, 0, cnt as int, 0, 0);
            let now = spec_belt_outer(s_belt0, deg as int);
            assert(now.0 =~= prev.0 + inner.0);
            assert forall|j: int| 0 <= j < now.0.len() implies ast_matches(
                #[trigger] bodies@[12 + j],
                bs0[0],
                now.0[j],
            ) by {
                if j < prev.0.len() {
                    assert(now.0[j] == prev.0[j]);
                } else {
                    assert(now.0[j] == inner.0[j - prev.0.len()]);
                    assert(bodies@[blen_pre + (j - prev.0.len())] == bodies@[12 + j]);
                }
            }
        }
    }
}

/// Fields that scenario generation determines, compared between two
/// bodies: everything, with the name compared as its character sequence.
pub open spec fn body_view_eq(a: CelestialBody, b: CelestialBody) -> bool {
    &&& a.mov == b.mov
    &&& a.radius == b.radius
    &&& a.cb_type == b.cb_type
    &&& a.hill_radius == b.hill_radius
    &&& a.color == b.color
    &&& a.name@ == b.name@
}

/// Scenario generation is deterministic: two worlds built from the same
/// seed and center agree on every body (down to the name characters),
/// on the arena layout, and on the ship.
pub proof fn lemma_initialize_deterministic(seed: u64, center: Vec2i, w1: World, w2: World)
    requires
        init_post(seed, center, w1),
        init_post(seed, center, w2),
    ensures
        w1.n_major == w2.n_major,
        w1.parent == w2.parent,
        w1.bodies@.len() == w2.bodies@.len(),
        forall|k: int|
            0 <= k < w1.bodies@.len() ==> body_view_eq(
                #[trigger] w1.bodies@[k],
                w2.bodies@[k],
            ),
        w1.ships@.len() == 1 && w2.ships@.len() == 1,
        w1.ships@[0].mov == w2.ships@[0].mov,
        w1.ships@[0].state == w2.ships@[0].state,
        w1.ships@[0].fuel == w2.ships@[0].fuel,
        w1.ships@[0].max_fuel == w2.ships@[0].max_fuel,
{
    assert(body_view_eq(w1.bodies@[0], w2.bodies@[0]));
    assert(body_view_eq(w1.bodies@[1], w2.bodies@[1]));
    assert(body_view_eq(w1.bodies@[2], w2.bodies@[2]));
    assert(body_view_eq(w1.bodies@[3], w2.bodies@[3]));
    assert(body_view_eq(w1.bodies@[4], w2.bodies@[4]));
    assert(body_view_eq(w1.bodies@[5], w2.bodies@[5]));
    assert(body_view_eq(w1.bodies@[6], w2.bodies@[6]));
    assert(body_view_eq(w1.bodies@[7], w2.bodies@[7]));
    assert(body_view_eq(w1.bodies@[8], w2.bodies@[8]));
    assert(body_view_eq(w1.bodies@[9], w2.bodies@[9]));
    assert(body_view_eq(w1.bodies@[10], w2.bodies@[10]));
    assert(body_view_eq(w1.bodies@[11], w2.bodies@[11]));
    let s0 = spec_rng_new(seed);
    let d1 = spec_draw(s0, -180_000, 180_000);
    let d2 = spec_draw(d1.1, -180_000, 180_000);
    let d3 = spec_draw(d2.1, -180_000, 180_000);
    let d4 = spec_draw(d3.1, -180_000, 180_000);
    let d5 = spec_draw(d4.1, -180_000, 180_000);
    let d6 = spec_draw(d5.1, -180_000, 180_000);
    let d7 = spec_draw(d6.1, -180_000, 180_000);
    let d8 = spec_draw(d7.1, -180_000, 180_000);
    let d9 = spec_draw(d8.1, -180_000, 180_000);
    let d10 = spec_draw(d9.1, -180_000, 180_000);
    let d11 = spec_draw(d10.1, -180_000, 180_000);
    let pick = spec_draw(d11.1, 0, 12);
    let sangle = spec_draw(pick.1, -180_000, 180_000);
    let belt = spec_belt_outer(sangle.1, 360);
    assert forall|k: int| 0 <= k < w1.bodies@.len() implies body_view_eq(
        #[trigger] w1.bodies@[k],
        w2.bodies@[k],
    ) by {
        if k >= 12 {
            let j = k - 12;
            assert(ast_matches(w1.bodies@[12 + j], w1.bodies@[0], belt.0[j]));
            assert(ast_matches(w2.bodies@[12 + j], w2.bodies@[0], belt.0[j]));
        }
    }
    lemma_draw_range(d11.1, 0, 12);
    assert(0 <= pick.0 < 12);
    assert(body_view_eq(w1.bodies@[pick.0], w2.bodies@[pick.0]));
}

/// A ranged draw lands inside its half-open range.
pub proof fn lemma_draw_range(state: u64, lo: int, hi: int)
    requires
        lo < hi,
        hi - lo <= 0x100000000,
    ensures
        lo <= spec_draw(state, lo, hi).0 < hi,
{
    reveal(spec_draw);
    lemma_draw_in_range(spec_rng_output(state) as int, hi - lo);
}

/// The scaled draw lands strictly inside the span.
proof fn lemma_draw_in_range(x: int, span: int)
    requires
        0 <= x < 0x100000000,
        1 <= span <= 0x100000000,
    ensures
        0 <= (x * span) / 0x100000000 < span,
        x * span <= 0xFFFFFFFFFFFFFFFF,
{
    assert(x * span >= 0 && x * span <= 0xFFFFFFFF00000000int && x * span < 0x100000000int * span)
        by (nonlinear_arith)
        requires
            0 <= x <= 0xFFFFFFFFint,
            1 <= span <= 0x100000000int,
    ;
    lemma_div_pos_is_pos(x * span, 0x100000000);
    lemma_multiply_divide_lt(x * span, 0x100000000, span);
}

} // verus!
