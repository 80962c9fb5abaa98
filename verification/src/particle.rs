//! A point mass: position, velocity and accumulated acceleration, with
//! force application and explicit Euler integration.

use vstd::prelude::*;
use crate::vector::{spec_add, spec_scalar_div, spec_scalar_mul, Vector2};

verus! {

/// Velocity damping applied once per integration step: 0.99 in fixed point.
/// Decaying the old velocity before adding the new impulse dissipates
/// energy so oscillations stay bounded; the order is part of the contract.
pub const DAMPING: i64 = 990;

/// A point mass. `id` is its stable identity inside the owning collection:
/// it is assigned at creation and never reassigned or reused, so a spring
/// holding it can never silently reattach to a survivor after a deletion.
#[derive(Clone, Copy, Debug, PartialEq, Eq, Structural)]
pub struct Particle {
    pub id: u64,
    pub pos: Vector2,
    pub vel: Vector2,
    pub acc: Vector2,
    pub mass: i64,
    pub dynamic: bool,
}

/// A freshly created particle: at rest at `pos`, with no pending force.
pub open spec fn spec_new_particle(id: u64, pos: Vector2, mass: i64, dynamic: bool) -> Particle {
    Particle {
        id,
        pos,
        vel: Vector2 { x: 0, y: 0 },
        acc: Vector2 { x: 0, y: 0 },
        mass,
        dynamic,
    }
}

/// Force application: a static particle is an immovable anchor and ignores
/// the force; a dynamic one accumulates `f / mass` into its acceleration.
/// Position and velocity never change here.
pub open spec fn spec_apply_force(p: Particle, f: Vector2) -> Particle {
    if !p.dynamic {
        p
    } else {
        Particle { acc: spec_add(p.acc, spec_scalar_div(f, p.mass)), ..p }
    }
}

/// Explicit Euler integration: damp the old velocity, add the pending
/// impulse, move by the new velocity, clear the accumulator. A static
/// particle never moves.
pub open spec fn spec_integrate(p: Particle, dt: i64) -> Particle {
    if !p.dynamic {
        p
    } else {
        let vel: Vector2 = spec_add(
            spec_scalar_mul(p.vel, DAMPING),
            spec_scalar_mul(p.acc, dt),
        );
        Particle {
            pos: spec_add(p.pos, spec_scalar_mul(vel, dt)),
            vel,
            acc: Vector2 { x: 0, y: 0 },
            ..p
        }
    }
}

/// `i` is the position of the first particle carrying `id`.
pub open spec fn is_first_with_id(ps: Seq<Particle>, id: u64, i: int) -> bool {
    &&& 0 <= i < ps.len()
    &&& ps[i].id == id
    &&& forall|j: int| 0 <= j < i ==> ps[j].id != id
}

/// Some particle in the collection carries `id`.
pub open spec fn has_id(ps: Seq<Particle>, id: u64) -> bool {
    exists|i: int| 0 <= i < ps.len() && ps[i].id == id
}

/// The position of the first particle carrying `id` (when one exists).
pub open spec fn first_with_id(ps: Seq<Particle>, id: u64) -> int {
    choose|i: int| is_first_with_id(ps, id, i)
}

/// If any particle carries `id`, a first one does.
pub proof fn lemma_first_with_id_exists(ps: Seq<Particle>, id: u64)
    requires
        has_id(ps, id),
    ensures
        is_first_with_id(ps, id, first_with_id(ps, id)),
{
    let w: int = choose|i: int| 0 <= i < ps.len() && ps[i].id == id;
    lemma_first_from_witness(ps, id, w);
}

proof fn lemma_first_from_witness(ps: Seq<Particle>, id: u64, w: int)
    requires
        0 <= w < ps.len(),
        ps[w].id == id,
    ensures
        is_first_with_id(ps, id, first_with_id(ps, id)),
    decreases w,
{
    if forall|j: int| 0 <= j < w ==> ps[j].id != id {
        assert(is_first_with_id(ps, id, w));
    } else {
        let w2: int = choose|j: int| 0 <= j < w && ps[j].id == id;
        lemma_first_from_witness(ps, id, w2);
    }
}

/// At most one position is the first with a given id.
pub proof fn lemma_first_with_id_is(ps: Seq<Particle>, id: u64, i: int)
    requires
        is_first_with_id(ps, id, i),
    ensures
        first_with_id(ps, id) == i,
{
    lemma_first_with_id_exists(ps, id);
    let i2: int = first_with_id(ps, id);
    if i < i2 {
        assert(ps[i].id != id);
    } else if i2 < i {
        assert(ps[i2].id != id);
    }
}

/// Index of the first particle carrying `id`, or `None` when no particle
/// does.
pub fn find_particle(particles: &Vec<Particle>, id: u64) -> (r: Option<usize>)
    ensures
        match r {
            Some(i) => is_first_with_id(particles@, id, i as int),
            None => !has_id(particles@, id),
        },
{
    let n: usize = particles.len();
    let mut i: usize = 0;
    while i < n
        invariant
            0 <= i <= n,
            n == particles@.len(),
            forall|j: int| 0 <= j < i ==> particles@[j].id != id,
        decreases n - i,
    {
        if particles[i].get_i() == id {
            return Some(i);
        }
        i = i + 1;
    }
    None
}

/// What the renderer needs of one particle: where to draw a circle, how
/// large, and which color class it takes.
#[derive(Clone, Copy, Debug, PartialEq, Eq, Structural)]
pub struct ParticleSnapshot {
    pub pos: Vector2,
    pub radius: i64,
    pub dynamic: bool,
}

impl Particle {
    /// Creates a particle with the given attributes and appends it to the
    /// given list. The caller supplies the fresh stable id.
    pub fn create(particles: &mut Vec<Particle>, id: u64, pos: Vector2, mass: i64, dynamic: bool)
        requires
            mass > 0,
        ensures
            final(particles)@ == old(particles)@.push(spec_new_particle(id, pos, mass, dynamic)),
    {
        particles.push(Particle {
            id,
            pos,
            vel: Vector2::zero(),
            acc: Vector2::zero(),
            mass,
            dynamic,
        });
    }

    /// Returns the stable identity of this particle.
    pub fn get_i(&self) -> (r: u64)
        ensures
            r == self.id,
    {
        self.id
    }

    /// Whether this particle integrates under force, or is a fixed anchor.
    pub fn is_dynamic(&self) -> (r: bool)
        ensures
            r == self.dynamic,
    {
        self.dynamic
    }

    /// Applies a force to this particle. The position only changes when
    /// `update` is next called; a static particle ignores the force.
    pub fn apply_force(&mut self, f: Vector2)
        requires
            old(self).dynamic ==> old(self).mass > 0,
        ensures
            *final(self) == spec_apply_force(*old(self), f),
    {
        if !self.dynamic {
            return;
        }
        let step: Vector2 = f.scalar_div(self.mass);
        self.acc = self.acc.add(step);
    }

    /// Updates velocity and position from the accumulated acceleration and
    /// the elapsed time `dt`, then clears the accumulator.
    pub fn update(&mut self, dt: i64)
        ensures
            *final(self) == spec_integrate(*old(self), dt),
    {
        if !self.dynamic {
            return;
        }
        self.vel = self.vel.scalar_mul(DAMPING);
        self.vel = self.vel.add(self.acc.scalar_mul(dt));
        self.pos = self.pos.add(self.vel.scalar_mul(dt));
        self.acc = Vector2::zero();
    }

    /// The circle the renderer should draw for this particle: its mass is
    /// its visual radius.
    pub fn draw(&self) -> (r: ParticleSnapshot)
        ensures
            r == (ParticleSnapshot { pos: self.pos, radius: self.mass, dynamic: self.dynamic }),
    {
        ParticleSnapshot { pos: self.pos, radius: self.mass, dynamic: self.dynamic }
    }
}

} // verus!
