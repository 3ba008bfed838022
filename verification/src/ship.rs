//! The player ship: kinematic state, fuel, the flight state machine
//! (in space / landed / destroyed) with its collision, landing and liftoff
//! rules, and the hill-sphere scoped ship gravity pass.

use vstd::prelude::*;
use vstd::string::StringExecFns;
use crate::body::{spec_point_in_circle, spec_pos_in_hill_radius, point_in_circle, CelestialBody};
use crate::gravity::{gravity_vel, idxs_ok, spec_gravity_vel, with_vel};
use crate::math::{cadd64, cdiv128, cl64, csub64, muldiv, tdiv};
use crate::movable::Movable;
use crate::trig::{
    angle_diff_mdeg, atan2_mdeg, cos_mdeg, sin_mdeg, spec_angle_diff, spec_atan2, spec_cos,
    spec_sin,
};
use crate::vec2::{spec_add, spec_advance, spec_dist2, v2, Vec2i};
use crate::{
    LANDING_TOLERANCE_MDEG, MILLI, SHIP_ACCELERATION, SHIP_ROT_SPEED, SHIP_SIZE,
    TERMINAL_VELOCITY, TRIG_SCALE,
};

verus! {

/// The flight state: free flight, resting on a body (remembered by its
/// arena index, with the accumulated takeoff velocity), or destroyed.
/// `Destroyed` is terminal.
#[derive(Clone, Copy, PartialEq, Eq, Structural, Debug)]
pub enum ShipState {
    Landed(usize, Vec2i),
    InSpace,
    Destroyed,
}

/// The player ship. `store` is the one-slot checkpoint of the flight
/// state, used together with the kinematic checkpoint by the trajectory
/// predictor; `in_hill_radius_of` is the set of arena indices of bodies
/// whose hill sphere currently contains the ship, rebuilt on every gravity
/// pass and never carried across steps.
pub struct Ship {
    pub mov: Movable,
    pub state: ShipState,
    pub store: ShipState,
    pub fuel: i64,
    pub max_fuel: i64,
    pub in_hill_radius_of: Vec<usize>,
}

/// A ship's state indices stay inside an arena of `n` bodies.
pub open spec fn ship_wf(s: Ship, n: int) -> bool {
    &&& s.mov.mass >= 1
    &&& (match s.state {
        ShipState::Landed(i, _) => i < n,
        _ => true,
    })
    &&& forall|a: int| 0 <= a < s.in_hill_radius_of@.len() ==> (#[trigger] s.in_hill_radius_of@[a]) < n
}

impl Ship {
    /// A fresh ship in free flight with full tanks and unit mass.
    pub fn new(pos: Vec2i, vel: Vec2i, fuel: i64) -> (r: Ship)
        ensures
            r.mov == Movable::spec_new_at(pos, vel, 1, 0),
            r.state == ShipState::InSpace,
            r.store == ShipState::InSpace,
            r.fuel == fuel,
            r.max_fuel == fuel,
            r.in_hill_radius_of@ == Seq::<usize>::empty(),
    {
        let v: Vec<usize> = Vec::new();
        Ship {
            mov: Movable::new(pos, vel, 1, 0),
            state: ShipState::InSpace,
            store: ShipState::InSpace,
            fuel,
            max_fuel: fuel,
            in_hill_radius_of: v,
        }
    }

    /// Checkpoint the kinematic triple and the flight state.
    pub fn save(&mut self)
        ensures
            final (self).mov == (Movable {
                store: crate::movable::Checkpoint {
                    pos: old(self).mov.pos,
                    vel: old(self).mov.vel,
                    rot: old(self).mov.rot,
                },
                ..old(self).mov
            }),
            final (self).state == old(self).state,
            final (self).store == old(self).state,
            final (self).fuel == old(self).fuel,
            final (self).max_fuel == old(self).max_fuel,
            final (self).in_hill_radius_of == old(self).in_hill_radius_of,
    {
        self.mov.save();
        self.store = self.state;
    }

    /// Restore the checkpointed kinematic triple and flight state; the
    /// flight-state slot is left at `InSpace`.
    pub fn load(&mut self)
        ensures
            final (self).mov == crate::movable::spec_loaded(old(self).mov),
            final (self).state == old(self).store,
            final (self).store == ShipState::InSpace,
            final (self).fuel == old(self).fuel,
            final (self).max_fuel == old(self).max_fuel,
            final (self).in_hill_radius_of == old(self).in_hill_radius_of,
    {
        self.state = self.store;
        self.store = ShipState::InSpace;
        self.mov.load();
    }

    /// Integrate the ship's position one step.
    pub fn update(&mut self, dt: i64)
        ensures
            final (self).mov == crate::movable::spec_updated(old(self).mov, dt as int),
            final (self).state == old(self).state,
            final (self).store == old(self).store,
            final (self).fuel == old(self).fuel,
            final (self).max_fuel == old(self).max_fuel,
            final (self).in_hill_radius_of == old(self).in_hill_radius_of,
    {
        self.mov.update(dt);
    }

    /// Turn counterclockwise at `SHIP_ROT_SPEED` for `dt` milliseconds.
    pub fn turn_left(&mut self, dt: i64)
        requires
            dt >= 0,
        ensures
            *final (self) == (Ship {
                mov: Movable {
                    rot: (cl64(
                        old(self).mov.rot - cl64(
                            tdiv((SHIP_ROT_SPEED as int) * dt, MILLI as int),
                        ),
                    ) as i64),
                    ..old(self).mov
                },
                ..*old(self)
            }),
    {
        let step: i64 = muldiv(SHIP_ROT_SPEED, dt, MILLI);
        self.mov.rot = csub64(self.mov.rot, step);
    }

    /// Turn clockwise at `SHIP_ROT_SPEED` for `dt` milliseconds.
    pub fn turn_right(&mut self, dt: i64)
        requires
            dt >= 0,
        ensures
            *final (self) == (Ship {
                mov: Movable {
                    rot: (cl64(
                        old(self).mov.rot + cl64(
                            tdiv((SHIP_ROT_SPEED as int) * dt, MILLI as int),
                        ),
                    ) as i64),
                    ..old(self).mov
                },
                ..*old(self)
            }),
    {
        let step: i64 = muldiv(SHIP_ROT_SPEED, dt, MILLI);
        self.mov.rot = cadd64(self.mov.rot, step);
    }

    /// Burn for `dt` milliseconds: with fuel left, thrust along the
    /// current heading — into the velocity in free flight, into the
    /// accumulated takeoff velocity while landed, nowhere when destroyed —
    /// and spend fuel; with the tank at or below zero, do nothing.
    pub fn throttle_up(&mut self, dt: i64)
        requires
            dt >= 0,
            old(self).mov.mass >= 1,
        ensures
            *final (self) == spec_throttled(*old(self), dt as int),
    {
        if self.fuel <= 0 {
            return ;
        }
        let delta: Vec2i = thrust_delta(self.mov.rot, self.mov.mass, dt);
        match self.state {
            ShipState::InSpace => {
                self.mov.vel = self.mov.vel.add(&delta);
            },
            ShipState::Landed(cb, tv) => {
                self.state = ShipState::Landed(cb, tv.add(&delta));
            },
            ShipState::Destroyed => {},
        }
        let cost: i64 = muldiv(SHIP_ACCELERATION, dt, MILLI);
        self.fuel = csub64(self.fuel, cost);
    }
}

/// The thrust velocity gained over `dt` milliseconds along the heading
/// `rot`: the unit heading vector times `SHIP_ACCELERATION * dt / mass`.
pub open spec fn spec_thrust_delta(rot: int, mass: int, dt: int) -> Vec2i {
    let den = (TRIG_SCALE as int) * (MILLI as int) * mass;
    v2(
        cl64(tdiv(spec_cos(rot) * (SHIP_ACCELERATION as int) * dt, den)),
        cl64(tdiv(spec_sin(rot) * (SHIP_ACCELERATION as int) * dt, den)),
    )
}

/// The ship after one `throttle_up(dt)` call.
pub open spec fn spec_throttled(s: Ship, dt: int) -> Ship {
    if s.fuel <= 0 {
        s
    } else {
        let delta = spec_thrust_delta(s.mov.rot as int, s.mov.mass as int, dt);
        let cost = cl64(tdiv((SHIP_ACCELERATION as int) * dt, MILLI as int));
        let s1 = match s.state {
            ShipState::InSpace => Ship {
                mov: Movable { vel: spec_add(s.mov.vel, delta), ..s.mov },
                ..s
            },
            ShipState::Landed(cb, tv) => Ship { state: ShipState::Landed(cb, spec_add(tv, delta)), ..s },
            ShipState::Destroyed => s,
        };
        Ship { fuel: (cl64(s1.fuel - cost) as i64), ..s1 }
    }
}

/// The thrust delta vector.
fn thrust_delta(rot: i64, mass: i64, dt: i64) -> (r: Vec2i)
    requires
        dt >= 0,
        mass >= 1,
    ensures
        r == spec_thrust_delta(rot as int, mass as int, dt as int),
{
    let c: i64 = cos_mdeg(rot);
    let s: i64 = sin_mdeg(rot);
    proof {
        lemma_thrust_products(c as int, dt as int, mass as int);
        lemma_thrust_products(s as int, dt as int, mass as int);
    }
    let den: i128 = 1_000_000_000i128 * (mass as i128);
    let px: i128 = (c as i128) * (SHIP_ACCELERATION as i128) * (dt as i128);
    let py: i128 = (s as i128) * (SHIP_ACCELERATION as i128) * (dt as i128);
    Vec2i { x: cdiv128(px, den), y: cdiv128(py, den) }
}

/// The milli-degree heading of the outward surface normal under the ship:
/// the angle of the ship's offset from the body's center (componentwise
/// clamped).
pub open spec fn spec_landing_angle(ship_pos: Vec2i, cb_pos: Vec2i) -> int {
    spec_atan2(cl64(ship_pos.y - cb_pos.y), cl64(ship_pos.x - cb_pos.x))
}

/// Whether a touchdown is survivable: relative speed squared within the
/// terminal velocity squared, and heading within the landing tolerance of
/// the surface normal.
pub open spec fn spec_landing_ok(s: Ship, cb: CelestialBody) -> bool {
    &&& spec_dist2(s.mov.vel, cb.mov.vel) <= (TERMINAL_VELOCITY as int) * (TERMINAL_VELOCITY as int)
    &&& spec_angle_diff(s.mov.rot as int, spec_landing_angle(s.mov.pos, cb.mov.pos))
        <= LANDING_TOLERANCE_MDEG as int
}

/// The ship after touching down on body `idx`: destroyed if the landing
/// was too fast or too crooked; otherwise landed with the rotation snapped
/// to the surface normal, full tanks and zero accumulated takeoff
/// velocity.
pub open spec fn spec_land_outcome(s: Ship, idx: usize, cb: CelestialBody) -> Ship {
    if !spec_landing_ok(s, cb) {
        Ship { state: ShipState::Destroyed, ..s }
    } else {
        Ship {
            mov: Movable { rot: (spec_landing_angle(s.mov.pos, cb.mov.pos) as i64), ..s.mov },
            state: ShipState::Landed(idx, v2(0, 0)),
            fuel: s.max_fuel,
            ..s
        }
    }
}

/// Whether the ship, with `addvel` added to its velocity, would be inside
/// the body's collision circle one `dt`-millisecond step from now.
pub open spec fn spec_check_collision(m: Movable, addvel: Vec2i, cb: CelestialBody, dt: int) -> bool {
    let next = spec_advance(m.pos, spec_add(m.vel, addvel), dt);
    spec_point_in_circle(next, cb.mov.pos, cl64(cb.radius + (SHIP_SIZE as int) / 2))
}

/// The ship after scanning bodies `0..k` for collisions while in free
/// flight: every body whose collision circle the one-step projection
/// enters triggers a touchdown attempt, in arena order.
pub open spec fn spec_scan_collisions(s: Ship, bodies: Seq<CelestialBody>, k: int, dt: int) -> Ship
    decreases k,
{
    if k <= 0 {
        s
    } else {
        let prev = spec_scan_collisions(s, bodies, k - 1, dt);
        if spec_check_collision(prev.mov, v2(0, 0), bodies[k - 1], dt) {
            spec_land_outcome(prev, (k - 1) as usize, bodies[k - 1])
        } else {
            prev
        }
    }
}

/// The ship after one collision-processing pass.
pub open spec fn spec_process_collision(s: Ship, bodies: Seq<CelestialBody>, dt: int) -> Ship {
    match s.state {
        ShipState::InSpace => spec_scan_collisions(s, bodies, bodies.len() as int, dt),
        ShipState::Landed(idx, tv) => {
            if !spec_check_collision(s.mov, tv, bodies[idx as int], dt) {
                Ship {
                    state: ShipState::InSpace,
                    mov: Movable { vel: spec_add(s.mov.vel, tv), ..s.mov },
                    ..s
                }
            } else {
                s
            }
        },
        ShipState::Destroyed => s,
    }
}

impl Ship {
    /// Attempt to land on the body at arena index `idx`: survivable
    /// touchdowns (see `spec_landing_ok`) leave the ship `Landed` with the
    /// rotation snapped to the surface normal, zero accumulated takeoff
    /// velocity and full tanks; any other touchdown destroys the ship.
    pub fn land(&mut self, idx: usize, cb: &CelestialBody)
        ensures
            *final (self) == spec_land_outcome(*old(self), idx, *cb),
            spec_landing_ok(*old(self), *cb) <==> final (self).state == ShipState::Landed(
                idx,
                Vec2i { x: 0i64, y: 0i64 },
            ) && final (self).fuel == old(self).max_fuel,
            !spec_landing_ok(*old(self), *cb) <==> final (self).state == ShipState::Destroyed,
    {
        let dy: i64 = csub64(self.mov.pos.y, cb.mov.pos.y);
        let dx: i64 = csub64(self.mov.pos.x, cb.mov.pos.x);
        let rot_snap: i64 = atan2_mdeg(dy, dx);
        let misaligned: bool = angle_diff_mdeg(self.mov.rot, rot_snap) > LANDING_TOLERANCE_MDEG;
        let v2rel: u128 = self.mov.vel.dist2(&cb.mov.vel);
        let too_fast: bool = v2rel > (TERMINAL_VELOCITY as u128) * (TERMINAL_VELOCITY as u128);
        if misaligned || too_fast {
            self.state = ShipState::Destroyed;
            return ;
        }
        self.mov.rot = rot_snap;
        self.fuel = self.max_fuel;
        let z = Vec2i::zero();
        self.state = ShipState::Landed(idx, z);
    }

    /// Leave the surface: back to free flight, with the accumulated
    /// takeoff velocity folded into the velocity.
    fn takeoff(&mut self, takeoff_vel: Vec2i)
        ensures
            *final (self) == (Ship {
                state: ShipState::InSpace,
                mov: Movable { vel: spec_add(old(self).mov.vel, takeoff_vel), ..old(self).mov },
                ..*old(self)
            }),
    {
        self.state = ShipState::InSpace;
        self.mov.vel = self.mov.vel.add(&takeoff_vel);
    }

    /// The one-step-ahead collision test: whether the ship, with `vel`
    /// added to its velocity, would be inside the body's collision circle
    /// after the next `dt`-millisecond step. Testing the next position
    /// rather than the current one avoids tunneling through a body within
    /// a step and makes liftoff detection symmetric with landing
    /// detection.
    pub fn check_collision(&self, vel: Vec2i, cb: &CelestialBody, dt: i64) -> (r: bool)
        requires
            cb.radius >= 0,
        ensures
            r == spec_check_collision(self.mov, vel, *cb, dt as int),
    {
        let mut m: Movable = self.mov;
        m.vel = m.vel.add(&vel);
        m.update(dt);
        let rr: i64 = cadd64(cb.radius, SHIP_SIZE / 2);
        point_in_circle(&m.pos, &cb.mov.pos, rr)
    }

    /// Run the landing state machine for one step, against the updated
    /// positions and velocities: in free flight, try to land on every body
    /// whose collision circle the one-step projection enters; while
    /// landed, lift off as soon as the same projection (with the
    /// accumulated takeoff velocity added) reports the ship clear of the
    /// surface; destroyed ships stay destroyed.
    pub fn process_collision(&mut self, bodies: &Vec<CelestialBody>, dt: i64)
        requires
            match old(self).state {
                ShipState::Landed(i, _) => i < bodies@.len(),
                _ => true,
            },
            forall|k: int| 0 <= k < bodies@.len() ==> (#[trigger] bodies@[k]).radius >= 0,
        ensures
            *final (self) == spec_process_collision(*old(self), bodies@, dt as int),
    {
        match self.state {
            ShipState::InSpace => {
                let ghost s0 = *self;
                let n: usize = bodies.len();
                let mut k: usize = 0;
                while k < n
                    invariant
                        n == bodies@.len(),
                        k <= n,
                        forall|m: int| 0 <= m < bodies@.len() ==> (#[trigger] bodies@[m]).radius >= 0,
                        *self == spec_scan_collisions(s0, bodies@, k as int, dt as int),
                    decreases n - k,
                {
                    if self.check_collision(Vec2i::zero(), &bodies[k], dt) {
                        self.land(k, &bodies[k]);
                    }
                    k = k + 1;
                }
            },
            ShipState::Landed(idx, tv) => {
                if !self.check_collision(tv, &bodies[idx], dt) {
                    self.takeoff(tv);
                }
            },
            ShipState::Destroyed => {},
        }
    }
}

/// One step of the hill-sphere scoped scan: if the body at arena index
/// `i` dominates the ship's position, the mutual pull is applied (to the
/// running ship velocity and to the body) and `i` joins the influencer
/// list; otherwise nothing changes.
pub open spec fn spec_ship_grav_step(
    pos: Vec2i,
    mass: int,
    acc: (Vec2i, Seq<CelestialBody>, Seq<usize>),
    i: usize,
    dt: int,
) -> (Vec2i, Seq<CelestialBody>, Seq<usize>) {
    let b = acc.1[i as int];
    if spec_pos_in_hill_radius(b, pos) {
        let r = spec_gravity_vel(pos, mass, b.mov.pos, b.mov.mass as int, dt);
        (
            spec_add(acc.0, r.0),
            acc.1.update(i as int, with_vel(b, spec_add(b.mov.vel, r.1))),
            acc.2.push(i),
        )
    } else {
        acc
    }
}

/// The scan over the first `a` entries of `idxs`: the ship's velocity
/// accumulates a pull from, and exerts one on, every body that dominates
/// its position; the influencer list collects those bodies in scan order.
pub open spec fn spec_ship_grav_scan(
    pos: Vec2i,
    mass: int,
    vel: Vec2i,
    bodies: Seq<CelestialBody>,
    idxs: Seq<usize>,
    a: int,
    dt: int,
) -> (Vec2i, Seq<CelestialBody>, Seq<usize>)
    decreases a,
{
    if a <= 0 {
        (vel, bodies, Seq::<usize>::empty())
    } else {
        let p = spec_ship_grav_scan(pos, mass, vel, bodies, idxs, a - 1, dt);
        spec_ship_grav_step(pos, mass, p, idxs[a - 1], dt)
    }
}

impl Ship {
    /// Apply ship gravity for one step, over the bodies selected by
    /// `idxs`. In free flight (and after destruction) the ship is pulled
    /// by — and pulls back on — exactly the bodies whose hill sphere
    /// contains its position, and the influencer list is rebuilt from
    /// scratch to record them. While landed, the ship simply co-moves:
    /// its velocity is forced equal to the anchor body's.
    pub fn apply_gravity(&mut self, bodies: &mut Vec<CelestialBody>, idxs: &Vec<usize>, dt: i64)
        requires
            idxs_ok(old(bodies)@, idxs@),
            crate::gravity::bodies_wf(old(bodies)@),
            old(self).mov.mass >= 0,
            match old(self).state {
                ShipState::Landed(i, _) => i < old(bodies)@.len(),
                _ => true,
            },
            dt >= 0,
        ensures
            final (bodies)@.len() == old(bodies)@.len(),
            forall|k: int|
                0 <= k < old(bodies)@.len() ==> (#[trigger] final (bodies)@[k]) == with_vel(
                    old(bodies)@[k],
                    final (bodies)@[k].mov.vel,
                ),
            forall|k: int|
                0 <= k < old(bodies)@.len() && (forall|a: int|
                    0 <= a < idxs@.len() ==> (#[trigger] idxs@[a]) != k) ==> (#[trigger] final (
                bodies)@[k]) == old(bodies)@[k],
            final (self).mov.pos == old(self).mov.pos,
            final (self).mov.rot == old(self).mov.rot,
            final (self).mov.mass == old(self).mov.mass,
            final (self).mov.store == old(self).mov.store,
            final (self).state == old(self).state,
            final (self).store == old(self).store,
            final (self).fuel == old(self).fuel,
            final (self).max_fuel == old(self).max_fuel,
            match old(self).state {
                ShipState::InSpace | ShipState::Destroyed => {
                    let r = spec_ship_grav_scan(
                        old(self).mov.pos,
                        old(self).mov.mass as int,
                        old(self).mov.vel,
                        old(bodies)@,
                        idxs@,
                        idxs@.len() as int,
                        dt as int,
                    );
                    &&& final (self).mov.vel == r.0
                    &&& final (bodies)@ == r.1
                    &&& final (self).in_hill_radius_of@ == r.2
                },
                ShipState::Landed(anchor, _) => {
                    &&& final (self).mov.vel == old(bodies)@[anchor as int].mov.vel
                    &&& final (bodies)@ == old(bodies)@
                    &&& final (self).in_hill_radius_of == old(self).in_hill_radius_of
                },
            },
    {
        match self.state {
            ShipState::InSpace | ShipState::Destroyed => {
                let ghost pos0 = self.mov.pos;
                let ghost mass0 = self.mov.mass as int;
                let ghost vel0 = self.mov.vel;
                let ghost bs0 = bodies@;
                self.in_hill_radius_of = Vec::new();
                let n: usize = idxs.len();
                let mut a: usize = 0;
                while a < n
                    invariant
                        n == idxs@.len(),
                        a <= n,
                        idxs_ok(bs0, idxs@),
                        crate::gravity::bodies_wf(bs0),
                        dt >= 0,
                        self.mov.mass as int == mass0,
                        mass0 >= 0,
                        self.mov.pos == pos0,
                        self.mov.rot == old(self).mov.rot,
                        self.mov.store == old(self).mov.store,
                        self.state == old(self).state,
                        self.store == old(self).store,
                        self.fuel == old(self).fuel,
                        self.max_fuel == old(self).max_fuel,
                        bodies@.len() == bs0.len(),
                        forall|k: int|
                            0 <= k < bs0.len() ==> (#[trigger] bodies@[k]) == with_vel(
                                bs0[k],
                                bodies@[k].mov.vel,
                            ),
                        forall|k: int|
                            0 <= k < bs0.len() && (forall|a2: int|
                                0 <= a2 < idxs@.len() ==> (#[trigger] idxs@[a2]) != k) ==> (
                            #[trigger] bodies@[k]) == bs0[k],
                        ({
                            let r = spec_ship_grav_scan(
                                pos0,
                                mass0,
                                vel0,
                                bs0,
                                idxs@,
                                a as int,
                                dt as int,
                            );
                            &&& self.mov.vel == r.0
                            &&& bodies@ == r.1
                            &&& self.in_hill_radius_of@ == r.2
                        }),
                    decreases n - a,
                {
                    let i: usize = idxs[a];
                    if bodies[i].pos_in_hill_radius(&self.mov.pos) {
                        self.in_hill_radius_of.push(i);
                        let r = gravity_vel(
                            &self.mov.pos,
                            self.mov.mass,
                            &bodies[i].mov.pos,
                            bodies[i].mov.mass,
                            dt,
                        );
                        self.mov.vel = self.mov.vel.add(&r.0);
                        let nv = bodies[i].mov.vel.add(&r.1);
                        crate::gravity::set_vel(bodies, i, nv);
                    }
                    a = a + 1;
                }
            },
            ShipState::Landed(anchor, _) => {
                self.mov.vel = bodies[anchor].mov.vel;
            },
        }
    }
}

/// No spontaneous liftoff: a `Landed` ship with zero accumulated takeoff
/// velocity stays exactly as it is through a collision-processing step,
/// as long as its one-step projection still touches the anchor body's
/// collision circle — which holds whenever ship and body keep co-moving,
/// since the landed gravity rule copies the body's velocity to the ship
/// every step.
pub proof fn lemma_no_spontaneous_liftoff(s: Ship, bodies: Seq<CelestialBody>, idx: usize, dt: int)
    requires
        s.state == ShipState::Landed(idx, Vec2i { x: 0i64, y: 0i64 }),
        idx < bodies.len(),
        spec_check_collision(s.mov, Vec2i { x: 0i64, y: 0i64 }, bodies[idx as int], dt),
    ensures
        spec_process_collision(s, bodies, dt) == s,
{
}

/// Every index the gravity scan collects comes from the scanned index
/// list, so it stays inside the arena.
pub proof fn lemma_scan_hill_bounds(
    pos: Vec2i,
    mass: int,
    vel: Vec2i,
    bodies: Seq<CelestialBody>,
    idxs: Seq<usize>,
    a: int,
    dt: int,
    n: int,
)
    requires
        forall|i: int| 0 <= i < idxs.len() ==> (#[trigger] idxs[i]) < n,
        a <= idxs.len(),
    ensures
        ({
            let r = spec_ship_grav_scan(pos, mass, vel, bodies, idxs, a, dt);
            forall|c: int| 0 <= c < r.2.len() ==> (#[trigger] r.2[c]) < n
        }),
    decreases a,
{
    if a <= 0 {
    } else {
        lemma_scan_hill_bounds(pos, mass, vel, bodies, idxs, a - 1, dt, n);
        let p = spec_ship_grav_scan(pos, mass, vel, bodies, idxs, a - 1, dt);
        let r = spec_ship_grav_scan(pos, mass, vel, bodies, idxs, a, dt);
        assert forall|c: int| 0 <= c < r.2.len() implies (#[trigger] r.2[c]) < n by {
            if c < p.2.len() {
                assert(r.2[c] == p.2[c]);
            } else {
                assert(r.2[c] == idxs[a - 1]);
            }
        }
    }
}

/// The display text of a flight state: the state's name, with the anchor
/// body named while landed.
pub open spec fn spec_state_text(st: ShipState, bodies: Seq<CelestialBody>) -> Seq<char> {
    match st {
        ShipState::InSpace => "In space"@,
        ShipState::Destroyed => "Destroyed"@,
        ShipState::Landed(i, _) => "Landed on "@ + bodies[i as int].name@,
    }
}

impl Ship {
    /// Render the flight state for display.
    pub fn describe(&self, bodies: &Vec<CelestialBody>) -> (r: String)
        requires
            match self.state {
                ShipState::Landed(i, _) => i < bodies@.len(),
                _ => true,
            },
        ensures
            r@ == spec_state_text(self.state, bodies@),
    {
        match self.state {
            ShipState::InSpace => String::from_str("In space"),
            ShipState::Destroyed => String::from_str("Destroyed"),
            ShipState::Landed(i, _) => {
                let mut s: String = String::from_str("Landed on ");
                s.append(bodies[i].name.as_str());
                proof {
                    assert(s@ =~= spec_state_text(self.state, bodies@));
                }
                s
            },
        }
    }
}

/// When the scanned index list is strictly increasing — as the live
/// tick's full arena range is — the influencer list the scan collects is
/// strictly increasing too, so it names each body at most once and the
/// trajectory predictor can capture it directly.
pub proof fn lemma_scan_hill_sorted(
    pos: Vec2i,
    mass: int,
    vel: Vec2i,
    bodies: Seq<CelestialBody>,
    idxs: Seq<usize>,
    a: int,
    dt: int,
)
    requires
        forall|i: int, j: int|
            0 <= i < j < idxs.len() ==> (#[trigger] idxs[i]) < (#[trigger] idxs[j]),
        a <= idxs.len(),
    ensures
        ({
            let r = spec_ship_grav_scan(pos, mass, vel, bodies, idxs, a, dt);
            &&& forall|c: int|
                0 <= c < r.2.len() ==> exists|i: int|
                    0 <= i < a && (#[trigger] r.2[c]) == idxs[i]
            &&& forall|c: int, d: int|
                0 <= c < d < r.2.len() ==> (#[trigger] r.2[c]) < (#[trigger] r.2[d])
        }),
    decreases a,
{
    if a <= 0 {
    } else {
        lemma_scan_hill_sorted(pos, mass, vel, bodies, idxs, a - 1, dt);
        let p = spec_ship_grav_scan(pos, mass, vel, bodies, idxs, a - 1, dt);
        let r = spec_ship_grav_scan(pos, mass, vel, bodies, idxs, a, dt);
        if r.2 != p.2 {
            assert(r.2 == p.2.push(idxs[a - 1]));
            assert forall|c: int| 0 <= c < r.2.len() implies exists|i: int|
                0 <= i < a && (#[trigger] r.2[c]) == idxs[i] by {
                if c < p.2.len() {
                    assert(r.2[c] == p.2[c]);
                    let i = choose|i: int| 0 <= i < a - 1 && p.2[c] == idxs[i];
                    assert(0 <= i < a && r.2[c] == idxs[i]);
                } else {
                    assert(r.2[c] == idxs[a - 1]);
                    assert(0 <= a - 1 < a && r.2[c] == idxs[a - 1]);
                }
            }
            assert forall|c: int, d: int| 0 <= c < d < r.2.len() implies (#[trigger] r.2[c]) < (
            #[trigger] r.2[d]) by {
                if d < p.2.len() {
                    assert(r.2[c] == p.2[c] && r.2[d] == p.2[d]);
                } else {
                    assert(r.2[c] == p.2[c] && r.2[d] == idxs[a - 1]);
                    let i = choose|i: int| 0 <= i < a - 1 && p.2[c] == idxs[i];
                    assert(idxs[i] < idxs[a - 1]);
                }
            }
        } else {
            assert forall|c: int| 0 <= c < r.2.len() implies exists|i: int|
                0 <= i < a && (#[trigger] r.2[c]) == idxs[i] by {
                let i = choose|i: int| 0 <= i < a - 1 && p.2[c] == idxs[i];
                assert(0 <= i < a && r.2[c] == idxs[i]);
            }
        }
    }
}

/// The collision scan reads and writes everything but the influencer
/// list, which it carries through unchanged: two ships that agree on all
/// other fields come out of the scan agreeing on all other fields.
proof fn lemma_scan_hill_invariant(
    s1: Ship,
    s2: Ship,
    bodies: Seq<CelestialBody>,
    k: int,
    dt: int,
)
    requires
        s1.mov == s2.mov,
        s1.state == s2.state,
        s1.store == s2.store,
        s1.fuel == s2.fuel,
        s1.max_fuel == s2.max_fuel,
    ensures
        ({
            let r1 = spec_scan_collisions(s1, bodies, k, dt);
            let r2 = spec_scan_collisions(s2, bodies, k, dt);
            &&& r1.mov == r2.mov
            &&& r1.state == r2.state
            &&& r1.store == r2.store
            &&& r1.fuel == r2.fuel
            &&& r1.max_fuel == r2.max_fuel
            &&& r1.in_hill_radius_of == s1.in_hill_radius_of
            &&& r2.in_hill_radius_of == s2.in_hill_radius_of
        }),
    decreases k,
{
    if k <= 0 {
    } else {
        lemma_scan_hill_invariant(s1, s2, bodies, k - 1, dt);
    }
}

/// Collision processing ignores the influencer list and hands it back
/// unchanged.
pub proof fn lemma_process_collision_hill_invariant(
    s1: Ship,
    s2: Ship,
    bodies: Seq<CelestialBody>,
    dt: int,
)
    requires
        s1.mov == s2.mov,
        s1.state == s2.state,
        s1.store == s2.store,
        s1.fuel == s2.fuel,
        s1.max_fuel == s2.max_fuel,
    ensures
        ({
            let r1 = spec_process_collision(s1, bodies, dt);
            let r2 = spec_process_collision(s2, bodies, dt);
            &&& r1.mov == r2.mov
            &&& r1.state == r2.state
            &&& r1.store == r2.store
            &&& r1.fuel == r2.fuel
            &&& r1.max_fuel == r2.max_fuel
            &&& r1.in_hill_radius_of == s1.in_hill_radius_of
            &&& r2.in_hill_radius_of == s2.in_hill_radius_of
        }),
{
    lemma_scan_hill_invariant(s1, s2, bodies, bodies.len() as int, dt);
}

/// The thrust intermediates stay inside the `i128` range.
proof fn lemma_thrust_products(c: int, dt: int, mass: int)
    requires
        -1_000_000 <= c <= 1_000_000,
        0 <= dt <= i64::MAX as int,
        1 <= mass <= i64::MAX as int,
    ensures
        -0x7ffffffffffffffffffffffffffffff <= c * 10_000 * dt
            <= 0x7ffffffffffffffffffffffffffffff,
        1 <= 1_000_000_000 * mass <= 0x7ffffffffffffffffffffffffffffff,
        (TRIG_SCALE as int) * (MILLI as int) * mass == 1_000_000_000 * mass,
{
    assert(-0x7ffffffffffffffffffffffffffffff <= c * 10_000 * dt
        <= 0x7ffffffffffffffffffffffffffffff) by (nonlinear_arith)
        requires
            -1_000_000 <= c <= 1_000_000,
            0 <= dt <= 0x7FFFFFFFFFFFFFFF,
    ;
    assert(1 <= 1_000_000_000 * mass <= 0x7ffffffffffffffffffffffffffffff) by (nonlinear_arith)
        requires
            1 <= mass <= 0x7FFFFFFFFFFFFFFF,
    ;
}

} // verus!
