//! The trajectory predictor: a speculative "simulate ahead, then roll
//! back" pass that previews the ship's near future at a coarser step than
//! the live loop.
//!
//! Per ship it captures the current influencer set, checkpoints the ship
//! and every captured body through their one-slot checkpoints, runs the
//! same gravity solver for a bounded number of iterations while sampling
//! a trail, and restores every checkpoint on every exit path — an early
//! predicted impact included — so the live state comes back exactly.

use vstd::prelude::*;
use crate::body::{CelestialBody, DisplayColor};
use crate::gravity::{
    apply_gravity_to_celestial_bodies, bodies_wf, idxs_ok, spec_apply_gravity_bodies, with_vel,
};
use crate::movable::{spec_updated, Checkpoint, Movable};
use crate::ship::{
    lemma_scan_hill_bounds, spec_check_collision, spec_ship_grav_scan, Ship, ShipState,
};
use crate::timer::Timer;
use crate::vec2::{v2, Vec2i};
use crate::world::spec_body_updated;
use crate::{PHYSICS_STEP_MS, SIM_TRAIL_LIFE_MS};

verus! {

/// One sampled point of a predicted or live trail: a position, a palette
/// color, and a freshness timer that display code ages and expires.
#[derive(Clone, Copy, PartialEq, Eq, Structural, Debug)]
pub struct TrailElement {
    pub pos: Vec2i,
    pub color: DisplayColor,
    pub timer: Timer,
}

/// The freshness timer a predictor sample starts with.
pub open spec fn sim_timer() -> Timer {
    Timer { act: 0i64, threshold: SIM_TRAIL_LIFE_MS, just_over: false, repeat: true }
}

/// Everything about a body except its kinematic triple and checkpoint
/// slot agrees between the two values, and the slot of `cur` holds the
/// triple `orig` had live.
pub open spec fn body_statics_eq(orig: CelestialBody, cur: CelestialBody) -> bool {
    &&& cur.radius == orig.radius
    &&& cur.cb_type == orig.cb_type
    &&& cur.hill_radius == orig.hill_radius
    &&& cur.color == orig.color
    &&& cur.name == orig.name
    &&& cur.mov.mass == orig.mov.mass
    &&& cur.mov.rot == orig.mov.rot
    &&& cur.mov.store == (Checkpoint {
        pos: orig.mov.pos,
        vel: orig.mov.vel,
        rot: orig.mov.rot,
    })
}

/// A body with its checkpoint slot set to its own live triple.
pub open spec fn spec_saved_body(b: CelestialBody) -> CelestialBody {
    CelestialBody {
        mov: Movable {
            store: Checkpoint { pos: b.mov.pos, vel: b.mov.vel, rot: b.mov.rot },
            ..b.mov
        },
        ..b
    }
}

/// The arena with every captured body checkpointed at its live triple.
pub open spec fn spec_checkpointed(bs: Seq<CelestialBody>, idxs: Seq<usize>) -> Seq<CelestialBody> {
    Seq::new(
        bs.len(),
        |k: int|
            if exists|a: int| 0 <= a < idxs.len() && (#[trigger] idxs[a]) as int == k {
                spec_saved_body(bs[k])
            } else {
                bs[k]
            },
    )
}

/// The captured bodies after one integration-and-sampling pass: each body
/// named by `idxs` advances one step, and, on sampling iterations, drops
/// a trail point of its own color at its new position.
pub open spec fn spec_bodies_update_sample(
    bs: Seq<CelestialBody>,
    idxs: Seq<usize>,
    a: int,
    sample: bool,
    dt: int,
    trail: Seq<TrailElement>,
) -> (Seq<CelestialBody>, Seq<TrailElement>)
    decreases a,
{
    if a <= 0 {
        (bs, trail)
    } else {
        let p = spec_bodies_update_sample(bs, idxs, a - 1, sample, dt, trail);
        let i = idxs[a - 1] as int;
        let nb = spec_body_updated(p.0[i], dt);
        (
            p.0.update(i, nb),
            if sample {
                p.1.push(TrailElement { pos: nb.mov.pos, color: nb.color, timer: sim_timer() })
            } else {
                p.1
            },
        )
    }
}

/// The first captured body (in scan order) whose collision circle the
/// ship's one-step projection enters, if any. The projection uses the
/// live physics step, as the live collision test does.
pub open spec fn spec_first_impact(
    m: Movable,
    bs: Seq<CelestialBody>,
    idxs: Seq<usize>,
    a: int,
) -> Option<usize>
    decreases a,
{
    if a <= 0 {
        Option::None
    } else {
        let p = spec_first_impact(m, bs, idxs, a - 1);
        if p is Some {
            p
        } else if spec_check_collision(m, v2(0, 0), bs[idxs[a - 1] as int], PHYSICS_STEP_MS as int) {
            Option::Some(idxs[a - 1])
        } else {
            Option::None
        }
    }
}

/// One rollout iteration: the all-pairs pass over the captured bodies,
/// the ship's scoped pass, integration and sampling of the captured
/// bodies, integration of the ship, then — in free flight — the predicted
/// impact test, which on a hit drops one impact-colored point and stops
/// the rollout; otherwise, on sampling iterations, the ship drops a point
/// of its own.
pub open spec fn spec_sim_iter(
    m: Movable,
    st: ShipState,
    bs: Seq<CelestialBody>,
    idxs: Seq<usize>,
    i: int,
    iterations: int,
    dt: int,
    trail: Seq<TrailElement>,
) -> (Movable, Seq<CelestialBody>, Seq<TrailElement>, bool) {
    let sample = i % 5 == 0 || i == iterations - 1;
    let b1 = spec_apply_gravity_bodies(bs, idxs, dt);
    let scan = spec_ship_grav_scan(m.pos, m.mass as int, m.vel, b1, idxs, idxs.len() as int, dt);
    let vel_g = match st {
        ShipState::InSpace | ShipState::Destroyed => scan.0,
        ShipState::Landed(anchor, _) => b1[anchor as int].mov.vel,
    };
    let b2 = match st {
        ShipState::InSpace | ShipState::Destroyed => scan.1,
        ShipState::Landed(_, _) => b1,
    };
    let p = spec_bodies_update_sample(b2, idxs, idxs.len() as int, sample, dt, trail);
    let m1 = spec_updated(Movable { vel: vel_g, ..m }, dt);
    if st is InSpace {
        match spec_first_impact(m1, p.0, idxs, idxs.len() as int) {
            Option::Some(_) => (
                m1,
                p.0,
                p.1.push(
                    TrailElement { pos: m1.pos, color: DisplayColor::Orange, timer: sim_timer() },
                ),
                true,
            ),
            Option::None => (
                m1,
                p.0,
                if sample {
                    p.1.push(
                        TrailElement {
                            pos: m1.pos,
                            color: DisplayColor::Yellow,
                            timer: sim_timer(),
                        },
                    )
                } else {
                    p.1
                },
                false,
            ),
        }
    } else {
        (m1, p.0, p.1, false)
    }
}

/// The rollout state after the first `i` iterations, stopping early at a
/// predicted impact. The flight state never changes during a rollout, so
/// it rides along as a plain parameter.
pub open spec fn spec_rollout(
    m: Movable,
    st: ShipState,
    bs: Seq<CelestialBody>,
    idxs: Seq<usize>,
    i: int,
    iterations: int,
    dt: int,
    trail: Seq<TrailElement>,
) -> (Movable, Seq<CelestialBody>, Seq<TrailElement>, bool)
    decreases i,
{
    if i <= 0 {
        (m, bs, trail, false)
    } else {
        let p = spec_rollout(m, st, bs, idxs, i - 1, iterations, dt, trail);
        if p.3 {
            p
        } else {
            spec_sim_iter(p.0, st, p.1, idxs, i - 1, iterations, dt, p.2)
        }
    }
}

/// Once a rollout has stopped at a predicted impact, running it further
/// changes nothing.
pub proof fn lemma_rollout_stable(
    m: Movable,
    st: ShipState,
    bs: Seq<CelestialBody>,
    idxs: Seq<usize>,
    i: int,
    j: int,
    iterations: int,
    dt: int,
    trail: Seq<TrailElement>,
)
    requires
        0 <= i <= j,
        spec_rollout(m, st, bs, idxs, i, iterations, dt, trail).3,
    ensures
        spec_rollout(m, st, bs, idxs, j, iterations, dt, trail) == spec_rollout(
            m,
            st,
            bs,
            idxs,
            i,
            iterations,
            dt,
            trail,
        ),
    decreases j - i,
{
    if j > i {
        lemma_rollout_stable(m, st, bs, idxs, i, j - 1, iterations, dt, trail);
    }
}

/// Copy an index list.
fn copy_indices(src: &Vec<usize>) -> (r: Vec<usize>)
    ensures
        r@ == src@,
{
    let mut r: Vec<usize> = Vec::new();
    let mut a: usize = 0;
    while a < src.len()
        invariant
            a <= src@.len(),
            r@ == src@.subrange(0, a as int),
        decreases src@.len() - a,
    {
        r.push(src[a]);
        a = a + 1;
    }
    proof {
        assert(src@.subrange(0, src@.len() as int) =~= src@);
    }
    r
}

/// Checkpoint every captured body's kinematic triple.
fn save_captured(bodies: &mut Vec<CelestialBody>, idxs: &Vec<usize>)
    requires
        idxs_ok(old(bodies)@, idxs@),
    ensures
        final (bodies)@ == spec_checkpointed(old(bodies)@, idxs@),
        final (bodies)@.len() == old(bodies)@.len(),
{
    let ghost bs0 = bodies@;
    let n: usize = idxs.len();
    let mut a: usize = 0;
    while a < n
        invariant
            n == idxs@.len(),
            a <= n,
            idxs_ok(bs0, idxs@),
            bodies@.len() == bs0.len(),
            forall|c: int|
                0 <= c < a ==> (#[trigger] bodies@[idxs@[c] as int]) == spec_saved_body(
                    bs0[idxs@[c] as int],
                ),
            forall|k: int|
                0 <= k < bs0.len() && (forall|c: int|
                    0 <= c < a ==> (#[trigger] idxs@[c]) as int != k) ==> (#[trigger] bodies@[k])
                    == bs0[k],
        decreases n - a,
    {
        let i: usize = idxs[a];
        let b = &mut bodies[i];
        b.mov.save();
        a = a + 1;
    }
    proof {
        assert(bodies@ =~= spec_checkpointed(bs0, idxs@));
    }
}

/// Restore every captured body's kinematic triple from its checkpoint.
fn restore_captured(bodies: &mut Vec<CelestialBody>, idxs: &Vec<usize>)
    requires
        idxs_ok(old(bodies)@, idxs@),
    ensures
        final (bodies)@.len() == old(bodies)@.len(),
        forall|c: int|
            0 <= c < idxs@.len() ==> (#[trigger] final (bodies)@[idxs@[c] as int]) == (
            CelestialBody {
                mov: crate::movable::spec_loaded(old(bodies)@[idxs@[c] as int].mov),
                ..old(bodies)@[idxs@[c] as int]
            }),
        forall|k: int|
            0 <= k < old(bodies)@.len() && (forall|c: int|
                0 <= c < idxs@.len() ==> (#[trigger] idxs@[c]) as int != k) ==> (#[trigger] final (
            bodies)@[k]) == old(bodies)@[k],
{
    let ghost bs0 = bodies@;
    let n: usize = idxs.len();
    let mut a: usize = 0;
    while a < n
        invariant
            n == idxs@.len(),
            a <= n,
            idxs_ok(bs0, idxs@),
            bodies@.len() == bs0.len(),
            forall|c: int|
                0 <= c < a ==> (#[trigger] bodies@[idxs@[c] as int]) == (CelestialBody {
                    mov: crate::movable::spec_loaded(bs0[idxs@[c] as int].mov),
                    ..bs0[idxs@[c] as int]
                }),
            forall|k: int|
                0 <= k < bs0.len() && (forall|c: int|
                    0 <= c < a ==> (#[trigger] idxs@[c]) as int != k) ==> (#[trigger] bodies@[k])
                    == bs0[k],
        decreases n - a,
    {
        let i: usize = idxs[a];
        let b = &mut bodies[i];
        b.mov.load();
        a = a + 1;
    }
}

/// Run one ship's rollout: checkpoint, simulate `iterations` coarse
/// steps, sample the trail, and restore the checkpoints on every exit
/// path. The live ship and bodies come back exactly; only the checkpoint
/// slots (now holding the live triples), the ship's flight-state slot
/// (reset to `InSpace`) and the ship's scratch influencer list differ.
fn rollout_one(
    ship: &mut Ship,
    bodies: &mut Vec<CelestialBody>,
    idxs: &Vec<usize>,
    iterations: usize,
    dt: i64,
    trail: &mut Vec<TrailElement>,
)
    requires
        idxs_ok(old(bodies)@, idxs@),
        bodies_wf(old(bodies)@),
        old(ship).mov.mass >= 0,
        match old(ship).state {
            ShipState::Landed(i, _) => i < old(bodies)@.len(),
            _ => true,
        },
        forall|c: int|
            0 <= c < old(ship).in_hill_radius_of@.len() ==> (#[trigger] old(
            ship).in_hill_radius_of@[c]) < old(bodies)@.len(),
        dt >= 0,
    ensures
        final (bodies)@.len() == old(bodies)@.len(),
        final (bodies)@ == spec_checkpointed(old(bodies)@, idxs@),
        final (ship).mov == (Movable {
            store: Checkpoint {
                pos: old(ship).mov.pos,
                vel: old(ship).mov.vel,
                rot: old(ship).mov.rot,
            },
            ..old(ship).mov
        }),
        final (ship).state == old(ship).state,
        final (ship).store == ShipState::InSpace,
        final (ship).fuel == old(ship).fuel,
        final (ship).max_fuel == old(ship).max_fuel,
        forall|c: int|
            0 <= c < final (ship).in_hill_radius_of@.len() ==> (#[trigger] final (
            ship).in_hill_radius_of@[c]) < old(bodies)@.len(),
        final (trail)@ == spec_rollout(
            Movable {
                store: Checkpoint {
                    pos: old(ship).mov.pos,
                    vel: old(ship).mov.vel,
                    rot: old(ship).mov.rot,
                },
                ..old(ship).mov
            },
            old(ship).state,
            spec_checkpointed(old(bodies)@, idxs@),
            idxs@,
            iterations as int,
            iterations as int,
            dt as int,
            old(trail)@,
        ).2,
{
    let ghost bs_orig = bodies@;
    let ghost sh_orig = *ship;
    let ghost tr0 = trail@;
    ship.save();
    save_captured(bodies, idxs);
    let ghost bs_saved = bodies@;
    let ghost m_saved = ship.mov;
    let ghost st0 = ship.state;
    proof {
        assert forall|c: int| 0 <= c < idxs@.len() implies body_statics_eq(
            #[trigger] bs_orig[idxs@[c] as int],
            bodies@[idxs@[c] as int],
        ) by {
            assert(bodies@[idxs@[c] as int] == spec_saved_body(bs_orig[idxs@[c] as int]));
        }
        assert forall|k: int|
            0 <= k < bs_orig.len() && (forall|c: int|
                0 <= c < idxs@.len() ==> (#[trigger] idxs@[c]) as int != k) implies (
        #[trigger] bodies@[k]) == bs_orig[k] by {
            assert(!(exists|a: int|
                0 <= a < idxs@.len() && (#[trigger] idxs@[a]) as int == k));
        }
    }
    let n: usize = iterations;
    let mut i: usize = 0;
    while i < n
        invariant
            n == iterations,
            i <= n,
            dt >= 0,
            idxs_ok(bs_orig, idxs@),
            bodies_wf(bs_orig),
            bodies@.len() == bs_orig.len(),
            bs_saved == spec_checkpointed(bs_orig, idxs@),
            m_saved == (Movable {
                store: Checkpoint {
                    pos: sh_orig.mov.pos,
                    vel: sh_orig.mov.vel,
                    rot: sh_orig.mov.rot,
                },
                ..sh_orig.mov
            }),
            st0 == sh_orig.state,
            sh_orig == *old(ship),
            bs_orig == old(bodies)@,
            tr0 == old(trail)@,
            sh_orig.mov.mass >= 0,
            match sh_orig.state {
                ShipState::Landed(anchor, _) => anchor < bs_orig.len(),
                _ => true,
            },
            ship.state == st0,
            ship.store == st0,
            ship.fuel == sh_orig.fuel,
            ship.max_fuel == sh_orig.max_fuel,
            ship.mov.mass == sh_orig.mov.mass,
            ship.mov.store == m_saved.store,
            forall|c: int|
                0 <= c < ship.in_hill_radius_of@.len() ==> (#[trigger] ship.in_hill_radius_of@[c])
                    < bs_orig.len(),
            forall|c: int|
                0 <= c < idxs@.len() ==> body_statics_eq(
                    #[trigger] bs_orig[idxs@[c] as int],
                    bodies@[idxs@[c] as int],
                ),
            forall|k: int|
                0 <= k < bs_orig.len() && (forall|c: int|
                    0 <= c < idxs@.len() ==> (#[trigger] idxs@[c]) as int != k) ==> (
                #[trigger] bodies@[k]) == bs_orig[k],
            ({
                let r = spec_rollout(
                    m_saved,
                    st0,
                    bs_saved,
                    idxs@,
                    i as int,
                    n as int,
                    dt as int,
                    tr0,
                );
                &&& ship.mov == r.0
                &&& bodies@ == r.1
                &&& trail@ == r.2
                &&& !r.3
            }),
        decreases n - i,
    {
        let ghost r_pre = spec_rollout(m_saved, st0, bs_saved, idxs@, i as int, n as int, dt as int, tr0);
        proof {
            assert(idxs_ok(bodies@, idxs@));
            assert(bodies_wf(bodies@)) by {
                assert forall|k: int| 0 <= k < bodies@.len() implies crate::body::body_wf(
                    #[trigger] bodies@[k],
                ) by {
                    if exists|c: int| 0 <= c < idxs@.len() && (#[trigger] idxs@[c]) as int == k {
                        let c = choose|c: int|
                            0 <= c < idxs@.len() && (#[trigger] idxs@[c]) as int == k;
                        assert(body_statics_eq(bs_orig[idxs@[c] as int], bodies@[idxs@[c] as int]));
                    } else {
                        assert(forall|c: int|
                            0 <= c < idxs@.len() ==> (#[trigger] idxs@[c]) as int != k);
                        assert(bodies@[k] == bs_orig[k]);
                    }
                }
            }
        }
        let ghost b0 = bodies@;
        apply_gravity_to_celestial_bodies(bodies, idxs, dt);
        let ghost b1 = bodies@;
        ship.apply_gravity(bodies, idxs, dt);
        let ghost b2 = bodies@;
        let ghost vel_g = ship.mov.vel;
        proof {
            lemma_scan_hill_bounds(
                r_pre.0.pos,
                r_pre.0.mass as int,
                r_pre.0.vel,
                b1,
                idxs@,
                idxs@.len() as int,
                dt as int,
                bs_orig.len() as int,
            );
            assert forall|c: int| 0 <= c < idxs@.len() implies body_statics_eq(
                #[trigger] bs_orig[idxs@[c] as int],
                bodies@[idxs@[c] as int],
            ) by {
                let k = idxs@[c] as int;
                assert(b1[k] == with_vel(b0[k], b1[k].mov.vel));
                assert(b2[k] == with_vel(b1[k], b2[k].mov.vel));
            }
        }
        let sample: bool = i % 5 == 0 || i == n - 1;
        let ghost tr_mid = trail@;
        let m: usize = idxs.len();
        let mut a: usize = 0;
        while a < m
            invariant
                m == idxs@.len(),
                a <= m,
                dt >= 0,
                idxs_ok(bs_orig, idxs@),
                bodies@.len() == bs_orig.len(),
                forall|c: int|
                    0 <= c < idxs@.len() ==> body_statics_eq(
                        #[trigger] bs_orig[idxs@[c] as int],
                        b2[idxs@[c] as int],
                    ),
                forall|k: int|
                    0 <= k < bs_orig.len() && (forall|c: int|
                        0 <= c < idxs@.len() ==> (#[trigger] idxs@[c]) as int != k) ==> (
                    #[trigger] b2[k]) == bs_orig[k],
                ({
                    let p = spec_bodies_update_sample(
                        b2,
                        idxs@,
                        a as int,
                        sample,
                        dt as int,
                        tr_mid,
                    );
                    &&& bodies@ == p.0
                    &&& trail@ == p.1
                }),
            decreases m - a,
        {
            let ib: usize = idxs[a];
            let b = &mut bodies[ib];
            b.mov.update(dt);
            if sample {
                let pos = bodies[ib].mov.pos;
                let color = bodies[ib].color;
                trail.push(TrailElement { pos, color, timer: Timer::new(SIM_TRAIL_LIFE_MS) });
            }
            a = a + 1;
        }
        proof {
            assert forall|c: int| 0 <= c < idxs@.len() implies body_statics_eq(
                #[trigger] bs_orig[idxs@[c] as int],
                bodies@[idxs@[c] as int],
            ) by {
                lemma_update_sample_statics(b2, idxs@, idxs@.len() as int, sample, dt as int, tr_mid, c);
            }
            assert forall|k: int|
                0 <= k < bs_orig.len() && (forall|c: int|
                    0 <= c < idxs@.len() ==> (#[trigger] idxs@[c]) as int != k) implies (
            #[trigger] bodies@[k]) == bs_orig[k] by {
                lemma_update_sample_local(b2, idxs@, idxs@.len() as int, sample, dt as int, tr_mid, k);
                assert(b2[k] == bs_orig[k]);
            }
        }
        ship.update(dt);
        let ghost m1 = ship.mov;
        let mut impacted: bool = false;
        match ship.state {
            ShipState::InSpace => {
                let mut a2: usize = 0;
                while a2 < m
                    invariant
                        m == idxs@.len(),
                        a2 <= m,
                        idxs_ok(bs_orig, idxs@),
                        bodies_wf(bs_orig),
                        bodies@.len() == bs_orig.len(),
                        m1 == ship.mov,
                        forall|c: int|
                            0 <= c < idxs@.len() ==> body_statics_eq(
                                #[trigger] bs_orig[idxs@[c] as int],
                                bodies@[idxs@[c] as int],
                            ),
                        impacted == (spec_first_impact(m1, bodies@, idxs@, a2 as int) is Some),
                    decreases m - a2,
                {
                    let ib: usize = idxs[a2];
                    proof {
                        assert(body_statics_eq(bs_orig[ib as int], bodies@[ib as int]));
                        assert(crate::body::body_wf(bs_orig[ib as int]));
                    }
                    if !impacted {
                        let z = Vec2i::zero();
                        if ship.check_collision(z, &bodies[ib], PHYSICS_STEP_MS) {
                            impacted = true;
                        }
                    }
                    a2 = a2 + 1;
                }
            },
            _ => {},
        }
        if impacted {
            let pos = ship.mov.pos;
            trail.push(
                TrailElement { pos, color: DisplayColor::Orange, timer: Timer::new(SIM_TRAIL_LIFE_MS) },
            );
            proof {
                assert(spec_rollout(
                    m_saved,
                    st0,
                    bs_saved,
                    idxs@,
                    i as int + 1,
                    n as int,
                    dt as int,
                    tr0,
                ).3);
                lemma_rollout_stable(
                    m_saved,
                    st0,
                    bs_saved,
                    idxs@,
                    i as int + 1,
                    n as int,
                    n as int,
                    dt as int,
                    tr0,
                );
            }
            let ghost pre_r = bodies@;
            restore_captured(bodies, idxs);
            ship.load();
            proof {
                lemma_restored(bs_orig, pre_r, bodies@, idxs@);
            }
            return ;
        }
        if sample {
            match ship.state {
                ShipState::InSpace => {
                    let pos = ship.mov.pos;
                    trail.push(
                        TrailElement {
                            pos,
                            color: DisplayColor::Yellow,
                            timer: Timer::new(SIM_TRAIL_LIFE_MS),
                        },
                    );
                },
                _ => {},
            }
        }
        i = i + 1;
    }
    let ghost pre_r = bodies@;
    restore_captured(bodies, idxs);
    ship.load();
    proof {
        lemma_restored(bs_orig, pre_r, bodies@, idxs@);
    }
}

/// An index list names each entry at most once.
pub open spec fn idxs_distinct(idxs: Seq<usize>) -> bool {
    forall|a: int, b: int| 0 <= a < b < idxs.len() ==> (#[trigger] idxs[a]) != (#[trigger] idxs[b])
}

/// Two bodies agree on everything except, possibly, the checkpoint slot.
pub open spec fn body_live_eq(a: CelestialBody, b: CelestialBody) -> bool {
    &&& b.radius == a.radius
    &&& b.cb_type == a.cb_type
    &&& b.hill_radius == a.hill_radius
    &&& b.color == a.color
    &&& b.name == a.name
    &&& b.mov.pos == a.mov.pos
    &&& b.mov.vel == a.mov.vel
    &&& b.mov.rot == a.mov.rot
    &&& b.mov.mass == a.mov.mass
}

/// The arena and trail after the first `s` ships have each run a
/// rollout: each rollout leaves the arena live-identical, with the
/// captured bodies' checkpoint slots set to their live triples, and
/// appends its samples to the trail.
pub open spec fn spec_simulate(
    ships: Seq<Ship>,
    bodies: Seq<CelestialBody>,
    s: int,
    iterations: int,
    dt: int,
) -> (Seq<CelestialBody>, Seq<TrailElement>)
    decreases s,
{
    if s <= 0 {
        (bodies, Seq::<TrailElement>::empty())
    } else {
        let p = spec_simulate(ships, bodies, s - 1, iterations, dt);
        let sh = ships[s - 1];
        let saved_m = Movable {
            store: Checkpoint { pos: sh.mov.pos, vel: sh.mov.vel, rot: sh.mov.rot },
            ..sh.mov
        };
        let saved_bs = spec_checkpointed(p.0, sh.in_hill_radius_of@);
        let roll = spec_rollout(
            saved_m,
            sh.state,
            saved_bs,
            sh.in_hill_radius_of@,
            iterations,
            iterations,
            dt,
            p.1,
        );
        (saved_bs, roll.2)
    }
}

/// Produce the predicted trail for every ship: each ship's current
/// influencer set is captured, the ship and those bodies are
/// checkpointed, the same solver and collision test are fast-forwarded
/// `iterations` coarse steps (stopping early at a predicted impact), and
/// every checkpoint is restored before returning — the live state is
/// byte-identical afterwards but for the checkpoint slots themselves, the
/// ships' flight-state slots (left at `InSpace`) and the ships' scratch
/// influencer lists.
pub fn simulate_hill_radius(
    ships: &mut Vec<Ship>,
    bodies: &mut Vec<CelestialBody>,
    iterations: usize,
    dt: i64,
) -> (trail: Vec<TrailElement>)
    requires
        bodies_wf(old(bodies)@),
        forall|s: int|
            0 <= s < old(ships)@.len() ==> crate::ship::ship_wf(
                #[trigger] old(ships)@[s],
                old(bodies)@.len() as int,
            ),
        forall|s: int|
            0 <= s < old(ships)@.len() ==> idxs_distinct(
                (#[trigger] old(ships)@[s]).in_hill_radius_of@,
            ),
        dt >= 0,
    ensures
        final (bodies)@.len() == old(bodies)@.len(),
        final (ships)@.len() == old(ships)@.len(),
        forall|k: int|
            0 <= k < old(bodies)@.len() ==> body_live_eq(
                #[trigger] old(bodies)@[k],
                final (bodies)@[k],
            ),
        final (bodies)@ == spec_simulate(
            old(ships)@,
            old(bodies)@,
            old(ships)@.len() as int,
            iterations as int,
            dt as int,
        ).0,
        trail@ == spec_simulate(
            old(ships)@,
            old(bodies)@,
            old(ships)@.len() as int,
            iterations as int,
            dt as int,
        ).1,
        forall|s: int|
            0 <= s < old(ships)@.len() ==> {
                let s0 = #[trigger] old(ships)@[s];
                let s1 = final (ships)@[s];
                &&& s1.mov == (Movable {
                    store: Checkpoint { pos: s0.mov.pos, vel: s0.mov.vel, rot: s0.mov.rot },
                    ..s0.mov
                })
                &&& s1.state == s0.state
                &&& s1.store == ShipState::InSpace
                &&& s1.fuel == s0.fuel
                &&& s1.max_fuel == s0.max_fuel
                &&& forall|c: int|
                    0 <= c < s1.in_hill_radius_of@.len() ==> (#[trigger] s1.in_hill_radius_of@[c])
                        < old(bodies)@.len()
            },
{
    let ghost ships0 = ships@;
    let ghost bs0 = bodies@;
    let mut trail: Vec<TrailElement> = Vec::new();
    let m: usize = ships.len();
    let mut s: usize = 0;
    while s < m
        invariant
            m == ships0.len(),
            s <= m,
            ships@.len() == m,
            dt >= 0,
            bodies_wf(bs0),
            bodies@.len() == bs0.len(),
            forall|t: int| 0 <= t < m ==> crate::ship::ship_wf(#[trigger] ships0[t], bs0.len() as int),
            forall|t: int|
                0 <= t < m ==> idxs_distinct((#[trigger] ships0[t]).in_hill_radius_of@),
            forall|t: int| s <= t < m ==> (#[trigger] ships@[t]) == ships0[t],
            forall|k: int|
                0 <= k < bs0.len() ==> body_live_eq(#[trigger] bs0[k], bodies@[k]),
            bodies@ == spec_simulate(ships0, bs0, s as int, iterations as int, dt as int).0,
            trail@ == spec_simulate(ships0, bs0, s as int, iterations as int, dt as int).1,
            forall|t: int|
                0 <= t < s ==> {
                    let s0 = #[trigger] ships0[t];
                    let s1 = ships@[t];
                    &&& s1.mov == (Movable {
                        store: Checkpoint { pos: s0.mov.pos, vel: s0.mov.vel, rot: s0.mov.rot },
                        ..s0.mov
                    })
                    &&& s1.state == s0.state
                    &&& s1.store == ShipState::InSpace
                    &&& s1.fuel == s0.fuel
                    &&& s1.max_fuel == s0.max_fuel
                    &&& forall|c: int|
                        0 <= c < s1.in_hill_radius_of@.len() ==> (
                        #[trigger] s1.in_hill_radius_of@[c]) < bs0.len()
                },
        decreases m - s,
    {
        let ghost pre = bodies@;
        proof {
            assert(bodies_wf(bodies@)) by {
                assert forall|k: int| 0 <= k < bodies@.len() implies crate::body::body_wf(
                    #[trigger] bodies@[k],
                ) by {
                    assert(body_live_eq(bs0[k], bodies@[k]));
                }
            }
        }
        let idxs: Vec<usize> = copy_indices(&ships[s].in_hill_radius_of);
        proof {
            assert(idxs@ == ships0[s as int].in_hill_radius_of@);
            assert(idxs_ok(bodies@, idxs@));
        }
        let sh = &mut ships[s];
        rollout_one(sh, bodies, &idxs, iterations, dt, &mut trail);
        proof {
            assert forall|k: int| 0 <= k < bs0.len() implies body_live_eq(
                #[trigger] bs0[k],
                bodies@[k],
            ) by {
                assert(bodies@ == spec_checkpointed(pre, idxs@));
                assert(bodies@[k] == spec_checkpointed(pre, idxs@)[k]);
                assert(body_live_eq(bs0[k], pre[k]));
            }
        }
        s = s + 1;
    }
    trail
}

/// Two arenas agree on everything the physics reads.
pub open spec fn bodies_live_eq(bs1: Seq<CelestialBody>, bs2: Seq<CelestialBody>) -> bool {
    &&& bs1.len() == bs2.len()
    &&& forall|k: int| 0 <= k < bs1.len() ==> body_live_eq(#[trigger] bs1[k], bs2[k])
}

/// Two ships agree on every field a live tick reads: the checkpoint
/// slots and the scratch influencer list are left out.
pub open spec fn ship_tick_eq(a: Ship, b: Ship) -> bool {
    &&& a.mov.pos == b.mov.pos
    &&& a.mov.vel == b.mov.vel
    &&& a.mov.rot == b.mov.rot
    &&& a.mov.mass == b.mov.mass
    &&& a.state == b.state
    &&& a.fuel == b.fuel
    &&& a.max_fuel == b.max_fuel
}

/// All indices fall inside the arena.
pub open spec fn idxs_bounded(idxs: Seq<usize>, n: int) -> bool {
    forall|a: int| 0 <= a < idxs.len() ==> (#[trigger] idxs[a]) < n
}

/// The all-pairs row fold reads only live fields.
proof fn lemma_pairs_inner_live(
    bs1: Seq<CelestialBody>,
    bs2: Seq<CelestialBody>,
    idxs: Seq<usize>,
    a: int,
    b: int,
    dt: int,
)
    requires
        bodies_live_eq(bs1, bs2),
        idxs_bounded(idxs, bs1.len() as int),
        b <= idxs.len(),
    ensures
        crate::gravity::spec_pairs_inner(bs1, idxs, a, b, dt).len() == bs1.len(),
        crate::gravity::spec_pairs_inner(bs2, idxs, a, b, dt).len() == bs2.len(),
        bodies_live_eq(
            crate::gravity::spec_pairs_inner(bs1, idxs, a, b, dt),
            crate::gravity::spec_pairs_inner(bs2, idxs, a, b, dt),
        ),
    decreases b,
{
    if a < 0 || b <= a + 1 {
    } else {
        lemma_pairs_inner_live(bs1, bs2, idxs, a, b - 1, dt);
        let p1 = crate::gravity::spec_pairs_inner(bs1, idxs, a, b - 1, dt);
        let p2 = crate::gravity::spec_pairs_inner(bs2, idxs, a, b - 1, dt);
        if 0 <= a < idxs.len() && 0 <= b - 1 < idxs.len() {
            let i = idxs[a] as int;
            let j = idxs[b - 1] as int;
            assert(body_live_eq(p1[i], p2[i]));
            assert(body_live_eq(p1[j], p2[j]));
            let q1 = crate::gravity::spec_apply_pair(p1, i, j, dt);
            let q2 = crate::gravity::spec_apply_pair(p2, i, j, dt);
            assert forall|k: int| 0 <= k < q1.len() implies body_live_eq(
                #[trigger] q1[k],
                q2[k],
            ) by {
                assert(body_live_eq(p1[k], p2[k]));
            }
        }
    }
}

/// The all-pairs pass reads only live fields.
proof fn lemma_pairs_outer_live(
    bs1: Seq<CelestialBody>,
    bs2: Seq<CelestialBody>,
    idxs: Seq<usize>,
    a: int,
    dt: int,
)
    requires
        bodies_live_eq(bs1, bs2),
        idxs_bounded(idxs, bs1.len() as int),
    ensures
        crate::gravity::spec_pairs_outer(bs1, idxs, a, dt).len() == bs1.len(),
        crate::gravity::spec_pairs_outer(bs2, idxs, a, dt).len() == bs2.len(),
        bodies_live_eq(
            crate::gravity::spec_pairs_outer(bs1, idxs, a, dt),
            crate::gravity::spec_pairs_outer(bs2, idxs, a, dt),
        ),
    decreases a,
{
    if a <= 0 {
    } else {
        lemma_pairs_outer_live(bs1, bs2, idxs, a - 1, dt);
        let p1 = crate::gravity::spec_pairs_outer(bs1, idxs, a - 1, dt);
        let p2 = crate::gravity::spec_pairs_outer(bs2, idxs, a - 1, dt);
        lemma_pairs_inner_live(p1, p2, idxs, a - 1, idxs.len() as int, dt);
    }
}

/// The ship's scoped gravity scan reads only live fields; it returns the
/// same velocity, live-equal bodies and the very same influencer list.
proof fn lemma_ship_scan_live(
    pos: Vec2i,
    mass: int,
    vel: Vec2i,
    bs1: Seq<CelestialBody>,
    bs2: Seq<CelestialBody>,
    idxs: Seq<usize>,
    a: int,
    dt: int,
)
    requires
        bodies_live_eq(bs1, bs2),
        idxs_bounded(idxs, bs1.len() as int),
        a <= idxs.len(),
    ensures
        ({
            let r1 = spec_ship_grav_scan(pos, mass, vel, bs1, idxs, a, dt);
            let r2 = spec_ship_grav_scan(pos, mass, vel, bs2, idxs, a, dt);
            &&& r1.1.len() == bs1.len()
            &&& r2.1.len() == bs2.len()
            &&& r1.0 == r2.0
            &&& bodies_live_eq(r1.1, r2.1)
            &&& r1.2 == r2.2
        }),
    decreases a,
{
    if a <= 0 {
    } else {
        lemma_ship_scan_live(pos, mass, vel, bs1, bs2, idxs, a - 1, dt);
        let p1 = spec_ship_grav_scan(pos, mass, vel, bs1, idxs, a - 1, dt);
        let p2 = spec_ship_grav_scan(pos, mass, vel, bs2, idxs, a - 1, dt);
        if 0 <= a - 1 < idxs.len() {
            let i = idxs[a - 1] as int;
            assert(body_live_eq(p1.1[i], p2.1[i]));
            assert(crate::body::spec_pos_in_hill_radius(p1.1[i], pos)
                == crate::body::spec_pos_in_hill_radius(p2.1[i], pos));
            let r1 = spec_ship_grav_scan(pos, mass, vel, bs1, idxs, a, dt);
            let r2 = spec_ship_grav_scan(pos, mass, vel, bs2, idxs, a, dt);
            assert forall|k: int| 0 <= k < r1.1.len() implies body_live_eq(
                #[trigger] r1.1[k],
                r2.1[k],
            ) by {
                assert(body_live_eq(p1.1[k], p2.1[k]));
            }
        }
    }
}

/// The collision scan reads only live ship fields and live body fields.
proof fn lemma_collision_scan_live(
    s1: Ship,
    s2: Ship,
    bs1: Seq<CelestialBody>,
    bs2: Seq<CelestialBody>,
    k: int,
    dt: int,
)
    requires
        ship_tick_eq(s1, s2),
        bodies_live_eq(bs1, bs2),
        k <= bs1.len(),
    ensures
        ({
            let r1 = crate::ship::spec_scan_collisions(s1, bs1, k, dt);
            let r2 = crate::ship::spec_scan_collisions(s2, bs2, k, dt);
            &&& ship_tick_eq(r1, r2)
            &&& r1.mov.store == s1.mov.store
            &&& r2.mov.store == s2.mov.store
            &&& r1.store == s1.store
            &&& r2.store == s2.store
            &&& r1.in_hill_radius_of == s1.in_hill_radius_of
            &&& r2.in_hill_radius_of == s2.in_hill_radius_of
        }),
    decreases k,
{
    if k <= 0 {
    } else {
        lemma_collision_scan_live(s1, s2, bs1, bs2, k - 1, dt);
        let p1 = crate::ship::spec_scan_collisions(s1, bs1, k - 1, dt);
        let p2 = crate::ship::spec_scan_collisions(s2, bs2, k - 1, dt);
        assert(body_live_eq(bs1[k - 1], bs2[k - 1]));
        assert(crate::ship::spec_check_collision(p1.mov, crate::vec2::v2(0, 0), bs1[k - 1], dt)
            == crate::ship::spec_check_collision(p2.mov, crate::vec2::v2(0, 0), bs2[k - 1], dt));
        assert(crate::ship::spec_landing_ok(p1, bs1[k - 1]) == crate::ship::spec_landing_ok(
            p2,
            bs2[k - 1],
        ));
    }
}

/// Collision processing reads only live ship and body fields.
proof fn lemma_process_collision_live(
    s1: Ship,
    s2: Ship,
    bs1: Seq<CelestialBody>,
    bs2: Seq<CelestialBody>,
    dt: int,
)
    requires
        ship_tick_eq(s1, s2),
        bodies_live_eq(bs1, bs2),
        match s1.state {
            ShipState::Landed(i, _) => i < bs1.len(),
            _ => true,
        },
    ensures
        ({
            let r1 = crate::ship::spec_process_collision(s1, bs1, dt);
            let r2 = crate::ship::spec_process_collision(s2, bs2, dt);
            &&& ship_tick_eq(r1, r2)
            &&& r1.in_hill_radius_of == s1.in_hill_radius_of
            &&& r2.in_hill_radius_of == s2.in_hill_radius_of
        }),
{
    lemma_collision_scan_live(s1, s2, bs1, bs2, bs1.len() as int, dt);
    match s1.state {
        ShipState::Landed(idx, tv) => {
            assert(body_live_eq(bs1[idx as int], bs2[idx as int]));
        },
        _ => {},
    }
}

/// The trajectory predictor is transparent to the live loop: it restores
/// every field a tick reads (see `simulate_hill_radius`), and one tick of
/// two worlds that agree on those fields produces live-identical arenas
/// and tick-identical ships. Running the predictor and discarding its
/// trail therefore leaves every following live tick identical to a run
/// that skipped it.
pub proof fn lemma_predictor_transparent_tick(
    bs1: Seq<CelestialBody>,
    bs2: Seq<CelestialBody>,
    ships1: Seq<Ship>,
    ships2: Seq<Ship>,
    n_major: int,
    parent: int,
    dt: int,
)
    requires
        bodies_live_eq(bs1, bs2),
        ships1.len() == ships2.len(),
        forall|s: int| 0 <= s < ships1.len() ==> ship_tick_eq(#[trigger] ships1[s], ships2[s]),
        0 <= parent < bs1.len(),
        0 <= n_major <= bs1.len(),
        bs1.len() <= usize::MAX as int,
    ensures
        bodies_live_eq(
            crate::world::spec_tick_bodies(bs1, n_major, parent, ships1, dt),
            crate::world::spec_tick_bodies(bs2, n_major, parent, ships2, dt),
        ),
{
    let idxs_m = crate::world::range_seq(n_major);
    let idxs_all = crate::world::range_seq(bs1.len() as int);
    assert(idxs_bounded(idxs_m, bs1.len() as int)) by {
        assert forall|a: int| 0 <= a < idxs_m.len() implies (#[trigger] idxs_m[a])
            < bs1.len() by {
            assert(idxs_m[a] == a as usize);
        }
    }
    assert(idxs_bounded(idxs_all, bs1.len() as int)) by {
        assert forall|a: int| 0 <= a < idxs_all.len() implies (#[trigger] idxs_all[a])
            < bs1.len() by {
            assert(idxs_all[a] == a as usize);
        }
    }
    lemma_pairs_outer_live(bs1, bs2, idxs_m, idxs_m.len() as int, dt);
    let b1a = crate::gravity::spec_apply_gravity_bodies(bs1, idxs_m, dt);
    let b1b = crate::gravity::spec_apply_gravity_bodies(bs2, idxs_m, dt);
    let b2a = crate::world::spec_minor_pass(b1a, n_major, parent, dt);
    let b2b = crate::world::spec_minor_pass(b1b, n_major, parent, dt);
    assert(bodies_live_eq(b2a, b2b)) by {
        assert forall|k: int| 0 <= k < b2a.len() implies body_live_eq(
            #[trigger] b2a[k],
            b2b[k],
        ) by {
            assert(body_live_eq(b1a[k], b1b[k]));
            assert(body_live_eq(b1a[parent], b1b[parent]));
        }
    }
    lemma_ships_pass_live(ships1, ships2, b2a, b2b, idxs_all, ships1.len() as int, dt);
    let b3a = crate::world::spec_bodies_after_ships(ships1, b2a, idxs_all, ships1.len() as int, dt);
    let b3b = crate::world::spec_bodies_after_ships(ships2, b2b, idxs_all, ships2.len() as int, dt);
    let b4a = crate::world::spec_tick_bodies(bs1, n_major, parent, ships1, dt);
    let b4b = crate::world::spec_tick_bodies(bs2, n_major, parent, ships2, dt);
    assert forall|k: int| 0 <= k < b4a.len() implies body_live_eq(#[trigger] b4a[k], b4b[k]) by {
        assert(body_live_eq(b3a[k], b3b[k]));
    }
}

/// The ships' gravity passes read only live fields.
#[verifier::rlimit(30)]
proof fn lemma_ships_pass_live(
    ships1: Seq<Ship>,
    ships2: Seq<Ship>,
    bs1: Seq<CelestialBody>,
    bs2: Seq<CelestialBody>,
    idxs: Seq<usize>,
    s: int,
    dt: int,
)
    requires
        bodies_live_eq(bs1, bs2),
        idxs_bounded(idxs, bs1.len() as int),
        ships1.len() == ships2.len(),
        forall|t: int| 0 <= t < ships1.len() ==> ship_tick_eq(#[trigger] ships1[t], ships2[t]),
        s <= ships1.len(),
    ensures
        crate::world::spec_bodies_after_ships(ships1, bs1, idxs, s, dt).len() == bs1.len(),
        crate::world::spec_bodies_after_ships(ships2, bs2, idxs, s, dt).len() == bs2.len(),
        bodies_live_eq(
            crate::world::spec_bodies_after_ships(ships1, bs1, idxs, s, dt),
            crate::world::spec_bodies_after_ships(ships2, bs2, idxs, s, dt),
        ),
    decreases s,
{
    if s <= 0 {
    } else {
        lemma_ships_pass_live(ships1, ships2, bs1, bs2, idxs, s - 1, dt);
        let p1 = crate::world::spec_bodies_after_ships(ships1, bs1, idxs, s - 1, dt);
        let p2 = crate::world::spec_bodies_after_ships(ships2, bs2, idxs, s - 1, dt);
        if 0 <= s - 1 < ships1.len() {
            let sh1 = ships1[s - 1];
            let sh2 = ships2[s - 1];
            assert(ship_tick_eq(sh1, sh2));
            lemma_ship_scan_live(
                sh1.mov.pos,
                sh1.mov.mass as int,
                sh1.mov.vel,
                p1,
                p2,
                idxs,
                idxs.len() as int,
                dt,
            );
        }
    }
}

/// One ship's tick outcome reads only live fields: two ships that agree
/// on everything a tick reads, run against live-equal arenas, come out
/// agreeing on everything a tick reads (and, in free flight, on the
/// rebuilt influencer list as well).
pub proof fn lemma_tick_ship_rel_live(
    s0a: Ship,
    s0b: Ship,
    pre_a: Seq<CelestialBody>,
    pre_b: Seq<CelestialBody>,
    post_a: Seq<CelestialBody>,
    post_b: Seq<CelestialBody>,
    idxs: Seq<usize>,
    dt: int,
    s1a: Ship,
    s1b: Ship,
)
    requires
        ship_tick_eq(s0a, s0b),
        bodies_live_eq(pre_a, pre_b),
        bodies_live_eq(post_a, post_b),
        idxs_bounded(idxs, pre_a.len() as int),
        match s0a.state {
            ShipState::Landed(i, _) => i < pre_a.len() && i < post_a.len(),
            _ => true,
        },
        crate::world::spec_tick_ship_rel(s0a, pre_a, post_a, idxs, dt, s1a),
        crate::world::spec_tick_ship_rel(s0b, pre_b, post_b, idxs, dt, s1b),
    ensures
        ship_tick_eq(s1a, s1b),
        match s0a.state {
            ShipState::Landed(_, _) => true,
            _ => s1a.in_hill_radius_of@ == s1b.in_hill_radius_of@,
        },
{
    lemma_ship_scan_live(
        s0a.mov.pos,
        s0a.mov.mass as int,
        s0a.mov.vel,
        pre_a,
        pre_b,
        idxs,
        idxs.len() as int,
        dt,
    );
    let scan_a = spec_ship_grav_scan(
        s0a.mov.pos,
        s0a.mov.mass as int,
        s0a.mov.vel,
        pre_a,
        idxs,
        idxs.len() as int,
        dt,
    );
    let vel_ga = match s0a.state {
        ShipState::InSpace | ShipState::Destroyed => scan_a.0,
        ShipState::Landed(anchor, _) => pre_a[anchor as int].mov.vel,
    };
    let scan_b = spec_ship_grav_scan(
        s0b.mov.pos,
        s0b.mov.mass as int,
        s0b.mov.vel,
        pre_b,
        idxs,
        idxs.len() as int,
        dt,
    );
    let vel_gb = match s0b.state {
        ShipState::InSpace | ShipState::Destroyed => scan_b.0,
        ShipState::Landed(anchor, _) => pre_b[anchor as int].mov.vel,
    };
    match s0a.state {
        ShipState::Landed(anchor, _) => {
            assert(body_live_eq(pre_a[anchor as int], pre_b[anchor as int]));
        },
        _ => {},
    }
    assert(vel_ga == vel_gb);
    let ya = Ship { mov: spec_updated(Movable { vel: vel_ga, ..s0a.mov }, dt), ..s0a };
    let yb = Ship { mov: spec_updated(Movable { vel: vel_gb, ..s0b.mov }, dt), ..s0b };
    assert(ship_tick_eq(ya, yb));
    lemma_process_collision_live(ya, yb, post_a, post_b, dt);
}

/// The integration-and-sampling fold keeps every non-kinematic field.
proof fn lemma_update_sample_statics(
    bs: Seq<CelestialBody>,
    idxs: Seq<usize>,
    a: int,
    sample: bool,
    dt: int,
    trail: Seq<TrailElement>,
    c: int,
)
    requires
        0 <= c < idxs.len(),
        forall|c2: int| 0 <= c2 < idxs.len() ==> (#[trigger] idxs[c2]) < bs.len(),
        a <= idxs.len(),
    ensures
        ({
            let p = spec_bodies_update_sample(bs, idxs, a, sample, dt, trail);
            &&& p.0.len() == bs.len()
            &&& (p.0[idxs[c] as int].radius == bs[idxs[c] as int].radius && p.0[idxs[c] as int].cb_type
                == bs[idxs[c] as int].cb_type && p.0[idxs[c] as int].hill_radius == bs[idxs[
                c] as int].hill_radius && p.0[idxs[c] as int].color == bs[idxs[c] as int].color
                && p.0[idxs[c] as int].name == bs[idxs[c] as int].name && p.0[idxs[c] as int].mov.mass
                == bs[idxs[c] as int].mov.mass && p.0[idxs[c] as int].mov.rot == bs[idxs[
                c] as int].mov.rot && p.0[idxs[c] as int].mov.store == bs[idxs[c] as int].mov.store)
        }),
    decreases a,
{
    if a <= 0 {
    } else {
        lemma_update_sample_statics(bs, idxs, a - 1, sample, dt, trail, c);
        let p = spec_bodies_update_sample(bs, idxs, a - 1, sample, dt, trail);
        let i = idxs[a - 1] as int;
        let nb = spec_body_updated(p.0[i], dt);
        if i == idxs[c] as int {
            assert(nb.radius == p.0[i].radius && nb.mov.mass == p.0[i].mov.mass && nb.mov.store
                == p.0[i].mov.store);
        }
    }
}

/// The integration-and-sampling fold leaves uncaptured bodies alone.
proof fn lemma_update_sample_local(
    bs: Seq<CelestialBody>,
    idxs: Seq<usize>,
    a: int,
    sample: bool,
    dt: int,
    trail: Seq<TrailElement>,
    k: int,
)
    requires
        0 <= k < bs.len(),
        forall|c: int| 0 <= c < idxs.len() ==> (#[trigger] idxs[c]) as int != k,
        forall|c2: int| 0 <= c2 < idxs.len() ==> (#[trigger] idxs[c2]) < bs.len(),
        a <= idxs.len(),
    ensures
        ({
            let p = spec_bodies_update_sample(bs, idxs, a, sample, dt, trail);
            &&& p.0.len() == bs.len()
            &&& p.0[k] == bs[k]
        }),
    decreases a,
{
    if a <= 0 {
    } else {
        lemma_update_sample_local(bs, idxs, a - 1, sample, dt, trail, k);
        assert(idxs[a - 1] as int != k);
    }
}

/// Loading every captured body after a rollout that preserved statics
/// yields exactly the pre-rollout arena with its checkpoints set.
proof fn lemma_restored(
    bs_orig: Seq<CelestialBody>,
    pre: Seq<CelestialBody>,
    post: Seq<CelestialBody>,
    idxs: Seq<usize>,
)
    requires
        pre.len() == bs_orig.len(),
        post.len() == bs_orig.len(),
        forall|c: int| 0 <= c < idxs.len() ==> (#[trigger] idxs[c]) < bs_orig.len(),
        forall|c: int|
            0 <= c < idxs.len() ==> body_statics_eq(
                #[trigger] bs_orig[idxs[c] as int],
                pre[idxs[c] as int],
            ),
        forall|c: int|
            0 <= c < idxs.len() ==> (#[trigger] post[idxs[c] as int]) == (CelestialBody {
                mov: crate::movable::spec_loaded(pre[idxs[c] as int].mov),
                ..pre[idxs[c] as int]
            }),
        forall|k: int|
            0 <= k < bs_orig.len() && (forall|c: int|
                0 <= c < idxs.len() ==> (#[trigger] idxs[c]) as int != k) ==> (#[trigger] pre[k])
                == bs_orig[k],
        forall|k: int|
            0 <= k < bs_orig.len() && (forall|c: int|
                0 <= c < idxs.len() ==> (#[trigger] idxs[c]) as int != k) ==> (#[trigger] post[k])
                == pre[k],
    ensures
        post == spec_checkpointed(bs_orig, idxs),
{
    assert forall|k: int| 0 <= k < bs_orig.len() implies post[k] == spec_checkpointed(
        bs_orig,
        idxs,
    )[k] by {
        if exists|a: int| 0 <= a < idxs.len() && (#[trigger] idxs[a]) as int == k {
            let a = choose|a: int| 0 <= a < idxs.len() && (#[trigger] idxs[a]) as int == k;
            assert(body_statics_eq(bs_orig[idxs[a] as int], pre[idxs[a] as int]));
            assert(post[idxs[a] as int] == (CelestialBody {
                mov: crate::movable::spec_loaded(pre[idxs[a] as int].mov),
                ..pre[idxs[a] as int]
            }));
            assert(post[k] == spec_saved_body(bs_orig[k]));
        } else {
            assert(forall|c: int| 0 <= c < idxs.len() ==> (#[trigger] idxs[c]) as int != k);
        }
    }
    assert(post =~= spec_checkpointed(bs_orig, idxs));
}

} // verus!
