//! The kinematic state shared by every moving entity: position, velocity,
//! mass and rotation, plus a one-slot checkpoint used by the trajectory
//! predictor to roll the live state back after a speculative run.

use vstd::prelude::*;
use crate::vec2::{spec_advance, Vec2i};

verus! {

/// A saved `(position, velocity, rotation)` triple.
#[derive(Clone, Copy, PartialEq, Eq, Structural, Debug)]
pub struct Checkpoint {
    pub pos: Vec2i,
    pub vel: Vec2i,
    pub rot: i64,
}

/// Position, velocity, mass and rotation, with a one-slot checkpoint of the
/// `(position, velocity, rotation)` triple. Mass is never checkpointed: it
/// is fixed after construction.
#[derive(Clone, Copy, PartialEq, Eq, Structural, Debug)]
pub struct Movable {
    pub pos: Vec2i,
    pub vel: Vec2i,
    pub mass: i64,
    pub rot: i64,
    pub store: Checkpoint,
}

/// The state after `load`: position, velocity and rotation come back from
/// the checkpoint slot; mass and the slot itself are untouched.
pub open spec fn spec_loaded(m: Movable) -> Movable {
    Movable { pos: m.store.pos, vel: m.store.vel, rot: m.store.rot, ..m }
}

/// The state after `update`: the position advances by `velocity * dt`,
/// everything else is untouched.
pub open spec fn spec_updated(m: Movable, dt: int) -> Movable {
    Movable { pos: spec_advance(m.pos, m.vel, dt), ..m }
}

impl Movable {
    /// The value `new` constructs.
    pub open spec fn spec_new_at(pos: Vec2i, vel: Vec2i, mass: i64, rot: i64) -> Movable {
        Movable { pos, vel, mass, rot, store: Checkpoint { pos, vel, rot } }
    }

    /// A fresh kinematic state; the checkpoint slot starts out holding the
    /// initial triple.
    pub fn new(pos: Vec2i, vel: Vec2i, mass: i64, rot: i64) -> (r: Movable)
        ensures
            r == Movable::spec_new_at(pos, vel, mass, rot),
    {
        Movable { pos, vel, mass, rot, store: Checkpoint { pos, vel, rot } }
    }

    /// Checkpoint the current `(position, velocity, rotation)` triple.
    pub fn save(&mut self)
        ensures
            *final (self) == (Movable {
                store: Checkpoint { pos: old(self).pos, vel: old(self).vel, rot: old(self).rot },
                ..*old(self)
            }),
    {
        self.store = Checkpoint { pos: self.pos, vel: self.vel, rot: self.rot };
    }

    /// Restore the checkpointed triple exactly.
    pub fn load(&mut self)
        ensures
            *final (self) == spec_loaded(*old(self)),
    {
        self.pos = self.store.pos;
        self.vel = self.store.vel;
        self.rot = self.store.rot;
    }

    /// Integrate the position one step: `position += velocity * dt`, with
    /// `dt` in milliseconds.
    pub fn update(&mut self, dt: i64)
        ensures
            *final (self) == spec_updated(*old(self), dt as int),
    {
        self.pos = self.pos.advance(&self.vel, dt);
    }
}

/// Checkpoint and restore are lossless: take any state `saved` as it stands
/// right after `save`, and any later state `later` reached from it by
/// mutations that leave the checkpoint slot alone (as `update` and every
/// velocity change do); then `load` on `later` yields back exactly the
/// position, velocity and rotation that `save` saw.
pub proof fn lemma_save_load_round_trip(saved: Movable, later: Movable)
    requires
        later.store == saved.store,
        saved.store == (Checkpoint { pos: saved.pos, vel: saved.vel, rot: saved.rot }),
    ensures
        spec_loaded(later).pos == saved.pos,
        spec_loaded(later).vel == saved.vel,
        spec_loaded(later).rot == saved.rot,
        spec_loaded(later).mass == later.mass,
{
}

} // verus!
