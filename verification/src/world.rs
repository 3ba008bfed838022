//! The live simulation arena: all celestial bodies in one owned
//! collection (majors first, minors after), the ships, and the fixed-step
//! tick that advances everything in the required order — gravity for
//! majors, minors and ships, then position integration, then the
//! collision/landing state machine.

use vstd::prelude::*;
use crate::body::CelestialBody;
use crate::gravity::{
    apply_gravity_asteroids, apply_gravity_to_celestial_bodies, bodies_wf, idxs_ok,
    spec_apply_gravity_bodies, spec_parent_pull, with_vel,
};
use crate::movable::{spec_updated, Movable};
use crate::ship::{
    lemma_process_collision_hill_invariant, ship_wf, spec_process_collision, spec_ship_grav_scan,
    Ship, ShipState,
};

verus! {

/// The whole live state: the body arena (the first `n_major` entries are
/// the star, planets and moons; the rest are asteroids), the index of the
/// asteroids' designated parent, and the ships.
pub struct World {
    pub bodies: Vec<CelestialBody>,
    pub n_major: usize,
    pub parent: usize,
    pub ships: Vec<Ship>,
}

/// Arena well-formedness: the parent is a major body, the major prefix
/// fits, every body and ship is well-formed.
pub open spec fn world_wf(w: World) -> bool {
    &&& w.parent < w.n_major
    &&& w.n_major <= w.bodies@.len()
    &&& bodies_wf(w.bodies@)
    &&& forall|s: int|
        0 <= s < w.ships@.len() ==> ship_wf(#[trigger] w.ships@[s], w.bodies@.len() as int)
}

/// The sequence `0, 1, .., n-1` as arena indices.
pub open spec fn range_seq(n: int) -> Seq<usize> {
    Seq::new(n as nat, |i: int| i as usize)
}

/// Build the index list `0..n`.
pub fn index_range(n: usize) -> (r: Vec<usize>)
    ensures
        r@ == range_seq(n as int),
{
    let mut r: Vec<usize> = Vec::new();
    let mut k: usize = 0;
    while k < n
        invariant
            k <= n,
            r@.len() == k,
            forall|a: int| 0 <= a < k ==> (#[trigger] r@[a]) == a as usize,
        decreases n - k,
    {
        r.push(k);
        k = k + 1;
    }
    proof {
        assert(r@ =~= range_seq(n as int));
    }
    r
}

/// The bodies after one ship's gravity pass: in free flight (or
/// destroyed) the ship pushes back on every body that dominates its
/// position; while landed it touches nothing.
pub open spec fn spec_ship_pass_bodies(
    ship: Ship,
    bodies: Seq<CelestialBody>,
    idxs: Seq<usize>,
    dt: int,
) -> Seq<CelestialBody> {
    match ship.state {
        ShipState::InSpace | ShipState::Destroyed => spec_ship_grav_scan(
            ship.mov.pos,
            ship.mov.mass as int,
            ship.mov.vel,
            bodies,
            idxs,
            idxs.len() as int,
            dt,
        ).1,
        ShipState::Landed(_, _) => bodies,
    }
}

/// The bodies after the first `s` ships have each taken their gravity
/// pass, in order.
pub open spec fn spec_bodies_after_ships(
    ships: Seq<Ship>,
    bodies: Seq<CelestialBody>,
    idxs: Seq<usize>,
    s: int,
    dt: int,
) -> Seq<CelestialBody>
    decreases s,
{
    if s <= 0 {
        bodies
    } else {
        spec_ship_pass_bodies(
            ships[s - 1],
            spec_bodies_after_ships(ships, bodies, idxs, s - 1, dt),
            idxs,
            dt,
        )
    }
}

/// Run the scoped gravity pass for every ship, in order, against the
/// shared arena.
pub fn apply_gravity_to_ships(
    ships: &mut Vec<Ship>,
    bodies: &mut Vec<CelestialBody>,
    idxs: &Vec<usize>,
    dt: i64,
)
    requires
        idxs_ok(old(bodies)@, idxs@),
        bodies_wf(old(bodies)@),
        forall|s: int|
            0 <= s < old(ships)@.len() ==> ship_wf(
                #[trigger] old(ships)@[s],
                old(bodies)@.len() as int,
            ),
        dt >= 0,
    ensures
        final (ships)@.len() == old(ships)@.len(),
        final (bodies)@.len() == old(bodies)@.len(),
        final (bodies)@ == spec_bodies_after_ships(
            old(ships)@,
            old(bodies)@,
            idxs@,
            old(ships)@.len() as int,
            dt as int,
        ),
        forall|k: int|
            0 <= k < old(bodies)@.len() ==> (#[trigger] final (bodies)@[k]) == with_vel(
                old(bodies)@[k],
                final (bodies)@[k].mov.vel,
            ),
        forall|s: int|
            0 <= s < old(ships)@.len() ==> spec_ship_grav_rel(
                #[trigger] old(ships)@[s],
                spec_bodies_after_ships(old(ships)@, old(bodies)@, idxs@, s, dt as int),
                idxs@,
                dt as int,
                final (ships)@[s],
            ),
{
    let ghost ships0 = ships@;
    let ghost bs0 = bodies@;
    let m: usize = ships.len();
    let mut s: usize = 0;
    while s < m
        invariant
            m == ships0.len(),
            s <= m,
            ships@.len() == m,
            idxs_ok(bs0, idxs@),
            bodies_wf(bs0),
            dt >= 0,
            forall|t: int| 0 <= t < m ==> ship_wf(#[trigger] ships0[t], bs0.len() as int),
            forall|t: int| s <= t < m ==> (#[trigger] ships@[t]) == ships0[t],
            bodies@.len() == bs0.len(),
            bodies@ == spec_bodies_after_ships(ships0, bs0, idxs@, s as int, dt as int),
            forall|k: int|
                0 <= k < bs0.len() ==> (#[trigger] bodies@[k]) == with_vel(
                    bs0[k],
                    bodies@[k].mov.vel,
                ),
            forall|t: int|
                0 <= t < s ==> spec_ship_grav_rel(
                    #[trigger] ships0[t],
                    spec_bodies_after_ships(ships0, bs0, idxs@, t, dt as int),
                    idxs@,
                    dt as int,
                    ships@[t],
                ),
        decreases m - s,
    {
        proof {
            assert(idxs_ok(bodies@, idxs@));
            assert(bodies_wf(bodies@)) by {
                assert forall|k: int| 0 <= k < bodies@.len() implies crate::body::body_wf(
                    #[trigger] bodies@[k],
                ) by {
                    assert(bodies@[k] == with_vel(bs0[k], bodies@[k].mov.vel));
                }
            }
        }
        let sh = &mut ships[s];
        sh.apply_gravity(bodies, idxs, dt);
        s = s + 1;
    }
}

/// A body with its position integrated one step.
pub open spec fn spec_body_updated(b: CelestialBody, dt: int) -> CelestialBody {
    CelestialBody { mov: spec_updated(b.mov, dt), ..b }
}

/// The arena after the minor-body pass: every body from `minor_start` on
/// gains the pull of the one designated parent; the rest stand still.
pub open spec fn spec_minor_pass(
    bs: Seq<CelestialBody>,
    minor_start: int,
    parent: int,
    dt: int,
) -> Seq<CelestialBody> {
    Seq::new(
        bs.len(),
        |k: int|
            if k < minor_start {
                bs[k]
            } else {
                spec_parent_pull(bs[k], bs[parent], dt)
            },
    )
}

/// The arena at the end of one tick: the all-pairs pass over the major
/// prefix, the parent-only pass over the minors, every ship's scoped
/// pass, then one step of position integration for every body.
pub open spec fn spec_tick_bodies(
    bodies: Seq<CelestialBody>,
    n_major: int,
    parent: int,
    ships: Seq<Ship>,
    dt: int,
) -> Seq<CelestialBody> {
    let b1 = spec_apply_gravity_bodies(bodies, range_seq(n_major), dt);
    let b2 = spec_minor_pass(b1, n_major, parent, dt);
    let b3 = spec_bodies_after_ships(ships, b2, range_seq(bodies.len() as int), ships.len() as int, dt);
    Seq::new(b3.len(), |k: int| spec_body_updated(b3[k], dt))
}

/// How one ship's state at the start of a tick relates to its state at
/// the end: the scoped gravity pass over `pre` (the arena as this ship
/// saw it), one step of position integration, then collision processing
/// against `post` (the fully updated arena).
pub open spec fn spec_tick_ship_rel(
    s0: Ship,
    pre: Seq<CelestialBody>,
    post: Seq<CelestialBody>,
    idxs: Seq<usize>,
    dt: int,
    s1: Ship,
) -> bool {
    let scan = spec_ship_grav_scan(
        s0.mov.pos,
        s0.mov.mass as int,
        s0.mov.vel,
        pre,
        idxs,
        idxs.len() as int,
        dt,
    );
    let vel_g = match s0.state {
        ShipState::InSpace | ShipState::Destroyed => scan.0,
        ShipState::Landed(anchor, _) => pre[anchor as int].mov.vel,
    };
    let hill_g = match s0.state {
        ShipState::InSpace | ShipState::Destroyed => scan.2,
        ShipState::Landed(_, _) => s0.in_hill_radius_of@,
    };
    let mov_u = spec_updated(Movable { vel: vel_g, ..s0.mov }, dt);
    let y = spec_process_collision(Ship { mov: mov_u, ..s0 }, post, dt);
    &&& s1.mov == y.mov
    &&& s1.state == y.state
    &&& s1.store == y.store
    &&& s1.fuel == y.fuel
    &&& s1.max_fuel == y.max_fuel
    &&& s1.in_hill_radius_of@ == hill_g
}

impl World {
    /// One fixed-step tick, in the required order: (a) the gravity solver
    /// updates velocities — all pairs among the majors, parent-only for
    /// the minors, hill-scoped and mutual for each ship; (b) every entity
    /// integrates its position; (c) the collision/landing state machine
    /// runs for each ship against the updated arena.
    #[verifier::rlimit(80)]
    pub fn tick(&mut self, dt: i64)
        requires
            world_wf(*old(self)),
            dt >= 0,
        ensures
            final (self).n_major == old(self).n_major,
            final (self).parent == old(self).parent,
            final (self).bodies@.len() == old(self).bodies@.len(),
            final (self).ships@.len() == old(self).ships@.len(),
            final (self).bodies@ == spec_tick_bodies(
                old(self).bodies@,
                old(self).n_major as int,
                old(self).parent as int,
                old(self).ships@,
                dt as int,
            ),
            forall|s: int|
                0 <= s < old(self).ships@.len() ==> spec_tick_ship_rel(
                    #[trigger] old(self).ships@[s],
                    spec_bodies_after_ships(
                        old(self).ships@,
                        spec_minor_pass(
                            spec_apply_gravity_bodies(
                                old(self).bodies@,
                                range_seq(old(self).n_major as int),
                                dt as int,
                            ),
                            old(self).n_major as int,
                            old(self).parent as int,
                            dt as int,
                        ),
                        range_seq(old(self).bodies@.len() as int),
                        s,
                        dt as int,
                    ),
                    final (self).bodies@,
                    range_seq(old(self).bodies@.len() as int),
                    dt as int,
                    final (self).ships@[s],
                ),
    {
        let ghost bs0 = self.bodies@;
        let ghost ships0 = self.ships@;
        let ghost nm = self.n_major as int;
        let ghost par = self.parent as int;
        // materialize the arena length so its usize bound is in scope
        let arena_len: usize = self.bodies.len();
        proof {
            assert(bs0.len() == arena_len as nat);
        }

        // (a) gravity: majors all-pairs
        let majors: Vec<usize> = index_range(self.n_major);
        proof {
            lemma_range_idxs_ok(bs0, self.n_major as int, bs0.len() as int);
        }
        apply_gravity_to_celestial_bodies(&mut self.bodies, &majors, dt);
        let ghost b1 = self.bodies@;

        // (a) gravity: minors, parent only
        proof {
            assert(bodies_wf(b1)) by {
                assert forall|k: int| 0 <= k < b1.len() implies crate::body::body_wf(
                    #[trigger] b1[k],
                ) by {
                    assert(b1[k] == with_vel(bs0[k], b1[k].mov.vel));
                }
            }
        }
        apply_gravity_asteroids(&mut self.bodies, self.n_major, self.parent, dt);
        let ghost b2 = self.bodies@;
        proof {
            assert(b2 =~= spec_minor_pass(b1, nm, par, dt as int));
            assert forall|k: int| 0 <= k < b2.len() implies (#[trigger] b2[k]) == with_vel(
                bs0[k],
                b2[k].mov.vel,
            ) by {
                assert(b1[k] == with_vel(bs0[k], b1[k].mov.vel));
            }
            assert(bodies_wf(b2)) by {
                assert forall|k: int| 0 <= k < b2.len() implies crate::body::body_wf(
                    #[trigger] b2[k],
                ) by {
                    assert(b2[k] == with_vel(bs0[k], b2[k].mov.vel));
                }
            }
        }

        // (a) gravity: ships, hill-scoped, over the whole arena
        let all: Vec<usize> = index_range(self.bodies.len());
        proof {
            lemma_range_idxs_ok(b2, b2.len() as int, b2.len() as int);
        }
        apply_gravity_to_ships(&mut self.ships, &mut self.bodies, &all, dt);
        let ghost b3 = self.bodies@;
        let ghost ships_g = self.ships@;

        // (b) every body integrates its position
        let n: usize = self.bodies.len();
        let mut k: usize = 0;
        while k < n
            invariant
                n == b3.len(),
                k <= n,
                self.bodies@.len() == n,
                dt >= 0,
                self.ships@ == ships_g,
                self.n_major == old(self).n_major,
                self.parent == old(self).parent,
                forall|m: int|
                    0 <= m < k ==> (#[trigger] self.bodies@[m]) == spec_body_updated(
                        b3[m],
                        dt as int,
                    ),
                forall|m: int| k <= m < n ==> (#[trigger] self.bodies@[m]) == b3[m],
            decreases n - k,
        {
            let b = &mut self.bodies[k];
            b.mov.update(dt);
            k = k + 1;
        }
        proof {
            assert(self.bodies@ =~= Seq::new(b3.len(), |m: int| spec_body_updated(b3[m], dt as int)));
        }
        let ghost b4 = self.bodies@;

        // (b) every ship integrates its position
        let m: usize = self.ships.len();
        let mut s: usize = 0;
        while s < m
            invariant
                m == ships_g.len(),
                s <= m,
                self.ships@.len() == m,
                dt >= 0,
                self.bodies@ == b4,
                self.n_major == old(self).n_major,
                self.parent == old(self).parent,
                forall|t: int|
                    0 <= t < s ==> {
                        let prev = #[trigger] ships_g[t];
                        let cur = self.ships@[t];
                        &&& cur.mov == spec_updated(prev.mov, dt as int)
                        &&& cur.state == prev.state
                        &&& cur.store == prev.store
                        &&& cur.fuel == prev.fuel
                        &&& cur.max_fuel == prev.max_fuel
                        &&& cur.in_hill_radius_of == prev.in_hill_radius_of
                    },
                forall|t: int| s <= t < m ==> (#[trigger] self.ships@[t]) == ships_g[t],
            decreases m - s,
        {
            let sh = &mut self.ships[s];
            sh.update(dt);
            s = s + 1;
        }
        let ghost ships_u = self.ships@;
        proof {
            assert forall|t: int| 0 <= t < m implies (match (#[trigger] ships_u[t]).state {
                ShipState::Landed(i, _) => i < b4.len(),
                _ => true,
            }) by {
                assert(spec_ship_grav_rel(
                    ships0[t],
                    spec_bodies_after_ships(ships0, b2, range_seq(bs0.len() as int), t, dt as int),
                    range_seq(bs0.len() as int),
                    dt as int,
                    ships_g[t],
                ));
                assert(ship_wf(ships0[t], bs0.len() as int));
            }
        }

        // (c) the collision/landing state machine, against the updated arena
        let mut s2: usize = 0;
        while s2 < m
            invariant
                m == ships_u.len(),
                s2 <= m,
                self.ships@.len() == m,
                dt >= 0,
                b4 == self.bodies@,
                self.n_major == old(self).n_major,
                self.parent == old(self).parent,
                forall|k2: int| 0 <= k2 < b4.len() ==> (#[trigger] b4[k2]).radius >= 0,
                forall|t: int|
                    0 <= t < m ==> (match (#[trigger] ships_u[t]).state {
                        ShipState::Landed(i, _) => i < b4.len(),
                        _ => true,
                    }),
                forall|t: int|
                    0 <= t < s2 ==> (#[trigger] self.ships@[t]) == spec_process_collision(
                        ships_u[t],
                        b4,
                        dt as int,
                    ),
                forall|t: int| s2 <= t < m ==> (#[trigger] self.ships@[t]) == ships_u[t],
            decreases m - s2,
        {
            let sh = &mut self.ships[s2];
            sh.process_collision(&self.bodies, dt);
            s2 = s2 + 1;
        }

        // tie the per-ship pipeline together
        proof {
            assert forall|t: int| 0 <= t < m implies spec_tick_ship_rel(
                #[trigger] ships0[t],
                spec_bodies_after_ships(ships0, b2, range_seq(bs0.len() as int), t, dt as int),
                b4,
                range_seq(bs0.len() as int),
                dt as int,
                self.ships@[t],
            ) by {
                let pre = spec_bodies_after_ships(ships0, b2, range_seq(bs0.len() as int), t, dt as int);
                let x = ships_u[t];
                let s0 = ships0[t];
                let scan = spec_ship_grav_scan(
                    s0.mov.pos,
                    s0.mov.mass as int,
                    s0.mov.vel,
                    pre,
                    range_seq(bs0.len() as int),
                    range_seq(bs0.len() as int).len() as int,
                    dt as int,
                );
                let vel_g = match s0.state {
                    ShipState::InSpace | ShipState::Destroyed => scan.0,
                    ShipState::Landed(anchor, _) => pre[anchor as int].mov.vel,
                };
                let mov_u = spec_updated(Movable { vel: vel_g, ..s0.mov }, dt as int);
                let y = Ship { mov: mov_u, ..s0 };
                assert(x.mov == y.mov && x.state == y.state && x.store == y.store && x.fuel
                    == y.fuel && x.max_fuel == y.max_fuel);
                lemma_process_collision_hill_invariant(x, y, b4, dt as int);
            }
        }
    }
}

/// A range of indices bounded by the arena length is a valid, duplicate
/// free index list.
proof fn lemma_range_idxs_ok(bs: Seq<CelestialBody>, n: int, len: int)
    requires
        0 <= n <= len,
        bs.len() == len,
        len <= usize::MAX as int,
    ensures
        idxs_ok(bs, range_seq(n)),
{
    assert forall|a: int| 0 <= a < range_seq(n).len() implies (#[trigger] range_seq(n)[a])
        < bs.len() by {
        assert(range_seq(n)[a] == a as usize);
    }
    assert forall|a: int, b: int| 0 <= a < b < range_seq(n).len() implies (#[trigger] range_seq(
        n,
    )[a]) != (#[trigger] range_seq(n)[b]) by {
        assert(range_seq(n)[a] == a as usize && range_seq(n)[b] == b as usize);
    }
}

/// How one ship's state before its gravity pass relates to its state
/// after it, given the bodies it scanned.
pub open spec fn spec_ship_grav_rel(
    s0: Ship,
    pre: Seq<CelestialBody>,
    idxs: Seq<usize>,
    dt: int,
    s1: Ship,
) -> bool {
    let scan = spec_ship_grav_scan(
        s0.mov.pos,
        s0.mov.mass as int,
        s0.mov.vel,
        pre,
        idxs,
        idxs.len() as int,
        dt,
    );
    &&& s1.mov.pos == s0.mov.pos
    &&& s1.mov.rot == s0.mov.rot
    &&& s1.mov.mass == s0.mov.mass
    &&& s1.mov.store == s0.mov.store
    &&& s1.state == s0.state
    &&& s1.store == s0.store
    &&& s1.fuel == s0.fuel
    &&& s1.max_fuel == s0.max_fuel
    &&& (match s0.state {
        ShipState::InSpace | ShipState::Destroyed => {
            &&& s1.mov.vel == scan.0
            &&& s1.in_hill_radius_of@ == scan.2
        },
        ShipState::Landed(anchor, _) => {
            &&& s1.mov.vel == pre[anchor as int].mov.vel
            &&& s1.in_hill_radius_of == s0.in_hill_radius_of
        },
    })
}

} // verus!
