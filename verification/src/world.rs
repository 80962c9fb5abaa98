//! The simulation state machine: owns the particle and spring collections,
//! applies gravity and spring forces, integrates, and prunes springs whose
//! endpoints no longer exist.
//!
//! The world is either `Paused` or `Running` (a single `bool`); the
//! per-tick algorithm runs only while running. Particle ids are assigned
//! from a counter that never reuses a value, so deleting a particle can
//! never silently reattach a spring to a survivor.

use vstd::prelude::*;
use crate::particle::{
    find_particle, first_with_id, has_id, lemma_first_with_id_exists, lemma_first_with_id_is,
    spec_apply_force, spec_integrate, spec_new_particle, Particle,
};
use crate::spring::{spec_spring_apply, Spring, DEFAULT_STIFFNESS};
use crate::vector::{spec_mag, spec_sub, Vector2};
use crate::fixed::{add_sat, clamped};

verus! {

/// The gravity force handed to every particle each tick, in fixed point.
pub const GRAVITY_X: i64 = 0;

/// Positive y points down the screen, so gravity pulls downward.
pub const GRAVITY_Y: i64 = 100_000_000;

/// How a mutating request can be refused. Physics on a vanished entity is
/// a no-op, never an error: entities disappearing mid-frame are expected.
#[derive(Clone, Copy, Debug, PartialEq, Eq, Structural)]
pub enum WorldError {
    /// A spring creation named a particle id that does not exist.
    InvalidReference,
    /// A particle creation asked for a non-positive mass (or the id
    /// counter is exhausted, a machine limit).
    InvalidParameter,
}

/// The mathematical state of a world: what the contracts speak of.
#[verifier::ext_equal]
pub ghost struct WorldModel {
    pub particles: Seq<Particle>,
    pub springs: Seq<Spring>,
    pub next_id: u64,
    pub running: bool,
}

/// Particle collection well-formedness: positive masses, and ids strictly
/// increasing in creation order and all below the fresh-id counter.
pub open spec fn particles_wf(ps: Seq<Particle>, next_id: u64) -> bool {
    &&& forall|i: int| 0 <= i < ps.len() ==> (#[trigger] ps[i]).mass > 0
    &&& forall|i: int| 0 <= i < ps.len() ==> (#[trigger] ps[i]).id < next_id
    &&& forall|i: int, j: int| 0 <= i < j < ps.len() ==> ps[i].id < ps[j].id
}

/// A spring is valid while both referenced ids exist in the collection.
pub open spec fn spring_valid(s: Spring, ps: Seq<Particle>) -> bool {
    has_id(ps, s.ai) && has_id(ps, s.bi)
}

/// Spring collection well-formedness: positive stiffness, nonnegative rest
/// length, both endpoints present.
pub open spec fn springs_wf(ss: Seq<Spring>, ps: Seq<Particle>) -> bool {
    forall|i: int| 0 <= i < ss.len() ==> {
        &&& (#[trigger] ss[i]).k > 0
        &&& ss[i].len >= 0
        &&& spring_valid(ss[i], ps)
    }
}

/// World well-formedness, over the model.
pub open spec fn model_wf(w: WorldModel) -> bool {
    particles_wf(w.particles, w.next_id) && springs_wf(w.springs, w.particles)
}

/// The initial world: empty and paused.
pub open spec fn spec_new_world() -> WorldModel {
    WorldModel { particles: Seq::empty(), springs: Seq::empty(), next_id: 0, running: false }
}

/// Particle creation succeeds for positive mass, while ids remain.
pub open spec fn can_create_particle(w: WorldModel, mass: i64) -> bool {
    mass > 0 && w.next_id < u64::MAX
}

/// Particle creation: append a fresh particle carrying the next id.
pub open spec fn spec_create_particle(
    w: WorldModel,
    pos: Vector2,
    mass: i64,
    dynamic: bool,
) -> WorldModel {
    if can_create_particle(w, mass) {
        WorldModel {
            particles: w.particles.push(spec_new_particle(w.next_id, pos, mass, dynamic)),
            next_id: (w.next_id + 1) as u64,
            ..w
        }
    } else {
        w
    }
}

/// Remove the particle carrying `id`, if any.
pub open spec fn spec_remove_id(ps: Seq<Particle>, id: u64) -> Seq<Particle> {
    if has_id(ps, id) {
        ps.remove(first_with_id(ps, id))
    } else {
        ps
    }
}

/// Keep exactly the springs whose endpoints both exist, in order.
pub open spec fn spec_prune(ss: Seq<Spring>, ps: Seq<Particle>) -> Seq<Spring>
    decreases ss.len(),
{
    if ss.len() == 0 {
        ss
    } else {
        let rest = spec_prune(ss.drop_first(), ps);
        if spring_valid(ss[0], ps) {
            seq![ss[0]] + rest
        } else {
            rest
        }
    }
}

/// Particle deletion: remove the particle, then prune the springs that
/// referenced it. Pruning eagerly here (rather than waiting for the next
/// tick) is the implementation choice this design documents: the force
/// phase then never sees a dangling spring.
pub open spec fn spec_delete_particle(w: WorldModel, id: u64) -> WorldModel {
    let ps = spec_remove_id(w.particles, id);
    WorldModel { particles: ps, springs: spec_prune(w.springs, ps), ..w }
}

/// Spring creation succeeds when both ids exist and any named stiffness is
/// positive.
pub open spec fn can_create_spring(w: WorldModel, a: u64, b: u64, k: Option<i64>) -> bool {
    &&& has_id(w.particles, a)
    &&& has_id(w.particles, b)
    &&& (k matches Some(v) ==> v > 0)
}

/// Spring creation: the rest length is the distance of the endpoints at
/// this moment.
pub open spec fn spec_create_spring(
    w: WorldModel,
    a: u64,
    b: u64,
    k: Option<i64>,
) -> WorldModel {
    if can_create_spring(w, a, b, k) {
        let pa = w.particles[first_with_id(w.particles, a)];
        let pb = w.particles[first_with_id(w.particles, b)];
        let s = Spring {
            ai: a,
            bi: b,
            len: spec_mag(spec_sub(pb.pos, pa.pos)),
            k: match k {
                Some(v) => v,
                None => DEFAULT_STIFFNESS,
            },
        };
        WorldModel { springs: w.springs.push(s), ..w }
    } else {
        w
    }
}

/// Flip between `Paused` and `Running`; velocities and accelerations are
/// not reset.
pub open spec fn spec_toggle(w: WorldModel) -> WorldModel {
    WorldModel { running: !w.running, ..w }
}

/// Drag a particle: put it at `pos` with its velocity cleared.
pub open spec fn spec_move_particle(w: WorldModel, id: u64, pos: Vector2) -> WorldModel {
    if has_id(w.particles, id) {
        let i = first_with_id(w.particles, id);
        let p = w.particles[i];
        WorldModel {
            particles: w.particles.update(
                i,
                Particle { pos, vel: Vector2 { x: 0, y: 0 }, ..p },
            ),
            ..w
        }
    } else {
        w
    }
}

/// The gravity force vector.
pub open spec fn gravity_vector() -> Vector2 {
    Vector2 { x: GRAVITY_X, y: GRAVITY_Y }
}

/// Gravity pass: every particle receives the global force (static anchors
/// ignore it inside `spec_apply_force`).
pub open spec fn spec_apply_gravity(ps: Seq<Particle>) -> Seq<Particle> {
    ps.map_values(|p: Particle| spec_apply_force(p, gravity_vector()))
}

/// Spring pass: each spring in stable creation order applies its force
/// pair to its endpoints.
pub open spec fn spec_apply_springs(ps: Seq<Particle>, ss: Seq<Spring>) -> Seq<Particle>
    decreases ss.len(),
{
    if ss.len() == 0 {
        ps
    } else {
        spec_apply_springs(spec_spring_apply(ps, ss[0]), ss.drop_first())
    }
}

/// Integration pass: every particle integrates by `dt`.
pub open spec fn spec_integrate_all(ps: Seq<Particle>, dt: i64) -> Seq<Particle> {
    ps.map_values(|p: Particle| spec_integrate(p, dt))
}

/// One tick: prune, gravity, spring forces, integrate — in that order,
/// and only while running. Pruning precedes the force phase so a deleted
/// particle can neither receive nor exert a spring force.
pub open spec fn spec_tick(w: WorldModel, dt: i64) -> WorldModel {
    if !w.running {
        w
    } else {
        let ss = spec_prune(w.springs, w.particles);
        let ps = spec_integrate_all(spec_apply_springs(spec_apply_gravity(w.particles), ss), dt);
        WorldModel { particles: ps, springs: ss, ..w }
    }
}

/// One request against the world: what a history is made of.
#[derive(Clone, Copy, Debug, PartialEq, Eq, Structural)]
pub enum WorldOp {
    Tick { dt: i64 },
    CreateParticle { pos: Vector2, mass: i64, dynamic: bool },
    DeleteParticle { id: u64 },
    CreateSpring { id_a: u64, id_b: u64, k: Option<i64> },
    ToggleRunning,
    MoveParticle { id: u64, pos: Vector2 },
}

/// The state after one operation: every mutating method of `World`
/// promises exactly this function of the old state and the arguments.
pub open spec fn spec_step(w: WorldModel, op: WorldOp) -> WorldModel {
    match op {
        WorldOp::Tick { dt } => spec_tick(w, dt),
        WorldOp::CreateParticle { pos, mass, dynamic } => spec_create_particle(
            w,
            pos,
            mass,
            dynamic,
        ),
        WorldOp::DeleteParticle { id } => spec_delete_particle(w, id),
        WorldOp::CreateSpring { id_a, id_b, k } => spec_create_spring(w, id_a, id_b, k),
        WorldOp::ToggleRunning => spec_toggle(w),
        WorldOp::MoveParticle { id, pos } => spec_move_particle(w, id, pos),
    }
}

/// The state after a whole history of operations, applied in order.
pub open spec fn spec_run(w: WorldModel, ops: Seq<WorldOp>) -> WorldModel
    decreases ops.len(),
{
    if ops.len() == 0 {
        w
    } else {
        spec_run(spec_step(w, ops[0]), ops.drop_first())
    }
}

/// `p` is within hit-testing distance of `point`: closer than the
/// particle's visual radius (its mass) plus the brush radius.
pub open spec fn near_point(p: Particle, point: Vector2, radius: i64) -> bool {
    spec_mag(spec_sub(point, p.pos)) < clamped(p.mass + radius)
}

/// `i` is the position of the first particle near `point`.
pub open spec fn is_first_near(ps: Seq<Particle>, point: Vector2, radius: i64, i: int) -> bool {
    &&& 0 <= i < ps.len()
    &&& near_point(ps[i], point, radius)
    &&& forall|j: int| 0 <= j < i ==> !near_point(ps[j], point, radius)
}

/// Hit testing: the id of the first particle (in creation order) near
/// `point`, or nothing.
pub open spec fn spec_find_near(ps: Seq<Particle>, point: Vector2, radius: i64) -> Option<u64> {
    if exists|i: int| 0 <= i < ps.len() && near_point(ps[i], point, radius) {
        let i: int = choose|i: int| is_first_near(ps, point, radius, i);
        Some(ps[i].id)
    } else {
        None
    }
}

/// A matching particle anywhere yields a first match.
proof fn lemma_first_near_from_witness(
    ps: Seq<Particle>,
    point: Vector2,
    radius: i64,
    w: int,
)
    requires
        0 <= w < ps.len(),
        near_point(ps[w], point, radius),
    ensures
        is_first_near(ps, point, radius, choose|i: int| is_first_near(ps, point, radius, i)),
    decreases w,
{
    if forall|j: int| 0 <= j < w ==> !near_point(ps[j], point, radius) {
        assert(is_first_near(ps, point, radius, w));
    } else {
        let w2: int = choose|j: int| 0 <= j < w && near_point(ps[j], point, radius);
        lemma_first_near_from_witness(ps, point, radius, w2);
    }
}

/// At most one position is the first near a point.
proof fn lemma_first_near_is(ps: Seq<Particle>, point: Vector2, radius: i64, i: int)
    requires
        is_first_near(ps, point, radius, i),
    ensures
        (choose|j: int| is_first_near(ps, point, radius, j)) == i,
        spec_find_near(ps, point, radius) == Some(ps[i].id),
{
    lemma_first_near_from_witness(ps, point, radius, i);
    let i2: int = choose|j: int| is_first_near(ps, point, radius, j);
    if i < i2 {
        assert(near_point(ps[i], point, radius));
    } else if i2 < i {
        assert(near_point(ps[i2], point, radius));
    }
}

/// Presence of an id survives appending a particle.
pub proof fn lemma_has_id_push(ps: Seq<Particle>, p: Particle, id: u64)
    requires
        has_id(ps, id),
    ensures
        has_id(ps.push(p), id),
{
    let i: int = choose|i: int| 0 <= i < ps.len() && ps[i].id == id;
    assert(ps.push(p)[i] == ps[i]);
}

/// Removing one particle keeps the collection well-formed: the survivors
/// keep their ids and order.
pub proof fn lemma_particles_wf_remove(ps: Seq<Particle>, next_id: u64, i: int)
    requires
        particles_wf(ps, next_id),
        0 <= i < ps.len(),
    ensures
        particles_wf(ps.remove(i), next_id),
{
    let ps2 = ps.remove(i);
    assert forall|a: int, b: int| 0 <= a < b < ps2.len() implies ps2[a].id < ps2[b].id by {
        let a0: int = if a < i { a } else { a + 1 };
        let b0: int = if b < i { b } else { b + 1 };
        assert(ps2[a] == ps[a0]);
        assert(ps2[b] == ps[b0]);
    }
    assert forall|a: int| 0 <= a < ps2.len() implies (#[trigger] ps2[a]).mass > 0
        && ps2[a].id < next_id by {
        let a0: int = if a < i { a } else { a + 1 };
        assert(ps2[a] == ps[a0]);
    }
}

/// The interactive 2D particle/spring world.
pub struct World {
    particles: Vec<Particle>,
    springs: Vec<Spring>,
    next_id: u64,
    running: bool,
}

impl View for World {
    type V = WorldModel;

    closed spec fn view(&self) -> WorldModel {
        WorldModel {
            particles: self.particles@,
            springs: self.springs@,
            next_id: self.next_id,
            running: self.running,
        }
    }
}

impl World {
    /// World well-formedness; every constructor establishes it and every
    /// method preserves it.
    pub open spec fn wf(&self) -> bool {
        model_wf(self@)
    }

    /// A fresh world: no particles, no springs, paused.
    pub fn new() -> (r: World)
        ensures
            r@ == spec_new_world(),
            r.wf(),
    {
        let w = World { particles: Vec::new(), springs: Vec::new(), next_id: 0, running: false };
        proof {
            assert(w@ =~= spec_new_world());
        }
        w
    }

    /// Whether the simulation is currently running (`true`) or paused.
    pub fn is_running(&self) -> (r: bool)
        ensures
            r == self@.running,
    {
        self.running
    }

    /// Read access to the particles, for rendering.
    pub fn particles(&self) -> (r: &Vec<Particle>)
        ensures
            r@ == self@.particles,
    {
        &self.particles
    }

    /// Read access to the springs, for rendering.
    pub fn springs(&self) -> (r: &Vec<Spring>)
        ensures
            r@ == self@.springs,
    {
        &self.springs
    }

    /// Flips the Running/Paused state; nothing else changes.
    pub fn toggle_running(&mut self)
        ensures
            final(self)@ == spec_toggle(old(self)@),
            old(self).wf() ==> final(self).wf(),
    {
        self.running = !self.running;
        proof {
            assert(self@ =~= spec_toggle(old(self)@));
        }
    }

    /// Creates a particle with a fresh, never-reused id and appends it.
    /// A non-positive mass is rejected: `apply_force` divides by it.
    pub fn create_particle(&mut self, pos: Vector2, mass: i64, dynamic: bool) -> (r: Result<
        u64,
        WorldError,
    >)
        requires
            old(self).wf(),
        ensures
            final(self).wf(),
            final(self)@ == spec_create_particle(old(self)@, pos, mass, dynamic),
            (r matches Ok(id) ==> can_create_particle(old(self)@, mass) && id
                == old(self)@.next_id),
            (r matches Err(e) ==> !can_create_particle(old(self)@, mass) && e
                == WorldError::InvalidParameter),
    {
        if mass <= 0 || self.next_id == u64::MAX {
            return Err(WorldError::InvalidParameter);
        }
        let id = self.next_id;
        Particle::create(&mut self.particles, id, pos, mass, dynamic);
        self.next_id = id + 1;
        proof {
            let psold = old(self)@.particles;
            let ps = self@.particles;
            let newp = spec_new_particle(id, pos, mass, dynamic);
            assert forall|i: int| 0 <= i < ps.len() implies (#[trigger] ps[i]).mass > 0
                && ps[i].id < self@.next_id by {
                if i < psold.len() {
                    assert(ps[i] == psold[i]);
                }
            }
            assert forall|a: int, b: int| 0 <= a < b < ps.len() implies ps[a].id < ps[b].id by {
                assert(ps[a] == psold[a]);
                if b < psold.len() {
                    assert(ps[b] == psold[b]);
                }
            }
            let ss = self@.springs;
            assert forall|i: int| 0 <= i < ss.len() implies spring_valid(#[trigger] ss[i], ps) by {
                lemma_has_id_push(psold, newp, ss[i].ai);
                lemma_has_id_push(psold, newp, ss[i].bi);
            }
            assert(self@ =~= spec_create_particle(old(self)@, pos, mass, dynamic));
        }
        Ok(id)
    }

    /// Returns the first particle (in creation order) within hit-testing
    /// distance of `point`, or nothing when no particle is near.
    pub fn find_particle_near(&self, point: Vector2, radius: i64) -> (r: Option<u64>)
        ensures
            r == spec_find_near(self@.particles, point, radius),
    {
        let n: usize = self.particles.len();
        let mut i: usize = 0;
        while i < n
            invariant
                0 <= i <= n,
                n == self.particles@.len(),
                forall|j: int| 0 <= j < i ==> !near_point(self.particles@[j], point, radius),
            decreases n - i,
        {
            let p = self.particles[i];
            let d = point.sub(p.pos).mag();
            let reach = add_sat(p.mass, radius);
            if d < reach {
                proof {
                    assert(is_first_near(self.particles@, point, radius, i as int));
                    lemma_first_near_is(self.particles@, point, radius, i as int);
                }
                return Some(p.get_i());
            }
            i = i + 1;
        }
        None
    }

    /// Drags the particle carrying `id` to `pos`, clearing its velocity;
    /// reports whether such a particle existed.
    pub fn move_particle(&mut self, id: u64, pos: Vector2) -> (r: bool)
        requires
            old(self).wf(),
        ensures
            final(self).wf(),
            final(self)@ == spec_move_particle(old(self)@, id, pos),
            r == has_id(old(self)@.particles, id),
    {
        let found = find_particle(&self.particles, id);
        match found {
            Some(i) => {
                proof {
                    lemma_first_with_id_is(self.particles@, id, i as int);
                }
                let mut p = self.particles[i];
                p.pos = pos;
                p.vel = Vector2::zero();
                self.particles.set(i, p);
                proof {
                    let psold = old(self)@.particles;
                    let ps = self@.particles;
                    assert forall|a: int, b: int| 0 <= a < b < ps.len() implies ps[a].id
                        < ps[b].id by {
                        assert(psold[a].id < psold[b].id);
                    }
                    let ss = self@.springs;
                    assert forall|j: int| 0 <= j < ss.len() implies spring_valid(
                        #[trigger] ss[j],
                        ps,
                    ) by {
                        lemma_has_id_update_same_ids(psold, ps, ss[j].ai);
                        lemma_has_id_update_same_ids(psold, ps, ss[j].bi);
                    }
                    assert(self@ =~= spec_move_particle(old(self)@, id, pos));
                }
                true
            },
            None => {
                false
            },
        }
    }
}

/// One unfolding step of the prune, at position `i` of the original.
proof fn lemma_prune_skip(ss: Seq<Spring>, ps: Seq<Particle>, i: int)
    requires
        0 <= i < ss.len(),
    ensures
        spec_prune(ss.skip(i), ps) == (if spring_valid(ss[i], ps) {
            seq![ss[i]] + spec_prune(ss.skip(i + 1), ps)
        } else {
            spec_prune(ss.skip(i + 1), ps)
        }),
{
    let t = ss.skip(i);
    assert(t[0] == ss[i]);
    assert(t.drop_first() =~= ss.skip(i + 1));
}

/// Everything the prune keeps is one of the original springs, and valid.
pub proof fn lemma_prune_elements(ss: Seq<Spring>, ps: Seq<Particle>)
    ensures
        forall|i: int| 0 <= i < spec_prune(ss, ps).len() ==> {
            &&& spring_valid(#[trigger] spec_prune(ss, ps)[i], ps)
            &&& exists|j: int| 0 <= j < ss.len() && ss[j] == spec_prune(ss, ps)[i]
        },
    decreases ss.len(),
{
    if ss.len() != 0 {
        lemma_prune_elements(ss.drop_first(), ps);
        let rest = spec_prune(ss.drop_first(), ps);
        let whole = spec_prune(ss, ps);
        assert forall|i: int| 0 <= i < whole.len() implies spring_valid(
            #[trigger] whole[i],
            ps,
        ) && exists|j: int| 0 <= j < ss.len() && ss[j] == whole[i] by {
            if spring_valid(ss[0], ps) && i == 0 {
                assert(whole[0] == ss[0]);
            } else {
                let r: int = if spring_valid(ss[0], ps) {
                    i - 1
                } else {
                    i
                };
                assert(whole[i] == rest[r]);
                let j2: int = choose|j: int|
                    0 <= j < ss.drop_first().len() && ss.drop_first()[j] == rest[r];
                assert(ss[j2 + 1] == whole[i]);
            }
        }
    }
}

/// Pruning a collection whose springs are all valid changes nothing.
proof fn lemma_prune_identity(ss: Seq<Spring>, ps: Seq<Particle>)
    requires
        forall|i: int| 0 <= i < ss.len() ==> spring_valid(#[trigger] ss[i], ps),
    ensures
        spec_prune(ss, ps) == ss,
    decreases ss.len(),
{
    if ss.len() != 0 {
        assert forall|i: int| 0 <= i < ss.drop_first().len() implies spring_valid(
            #[trigger] ss.drop_first()[i],
            ps,
        ) by {
            assert(ss.drop_first()[i] == ss[i + 1]);
        }
        lemma_prune_identity(ss.drop_first(), ps);
        assert(seq![ss[0]] + ss.drop_first() =~= ss);
    }
}

/// One unfolding step of the spring pass, at position `i`.
proof fn lemma_apply_springs_skip(ps: Seq<Particle>, ss: Seq<Spring>, i: int)
    requires
        0 <= i < ss.len(),
    ensures
        spec_apply_springs(ps, ss.skip(i)) == spec_apply_springs(
            spec_spring_apply(ps, ss[i]),
            ss.skip(i + 1),
        ),
{
    let t = ss.skip(i);
    assert(t[0] == ss[i]);
    assert(t.drop_first() =~= ss.skip(i + 1));
}

/// A spring changes accelerations only: each particle keeps its identity,
/// mass and kind, and the count is unchanged.
proof fn lemma_spring_apply_preserves(ps: Seq<Particle>, s: Spring)
    ensures
        spec_spring_apply(ps, s).len() == ps.len(),
        forall|i: int| 0 <= i < ps.len() ==> {
            &&& (#[trigger] spec_spring_apply(ps, s)[i]).id == ps[i].id
            &&& spec_spring_apply(ps, s)[i].mass == ps[i].mass
            &&& spec_spring_apply(ps, s)[i].dynamic == ps[i].dynamic
        },
{
    if has_id(ps, s.ai) && has_id(ps, s.bi) {
        lemma_first_with_id_exists(ps, s.ai);
        lemma_first_with_id_exists(ps, s.bi);
    }
}

/// Two collections with pointwise equal ids agree on id presence.
pub proof fn lemma_has_id_update_same_ids(ps1: Seq<Particle>, ps2: Seq<Particle>, id: u64)
    requires
        ps1.len() == ps2.len(),
        forall|i: int| 0 <= i < ps1.len() ==> ps1[i].id == (#[trigger] ps2[i]).id,
        has_id(ps1, id),
    ensures
        has_id(ps2, id),
{
    let i: int = choose|i: int| 0 <= i < ps1.len() && ps1[i].id == id;
    assert(ps2[i].id == id);
}

/// The springs that survive: both endpoints still exist, order kept.
fn prune_vec(springs: &Vec<Spring>, particles: &Vec<Particle>) -> (r: Vec<Spring>)
    ensures
        r@ == spec_prune(springs@, particles@),
{
    let mut out: Vec<Spring> = Vec::new();
    let n: usize = springs.len();
    let mut i: usize = 0;
    proof {
        assert(springs@.skip(0) =~= springs@);
        assert(out@ + spec_prune(springs@, particles@) =~= spec_prune(springs@, particles@));
    }
    while i < n
        invariant
            0 <= i <= n,
            n == springs@.len(),
            out@ + spec_prune(springs@.skip(i as int), particles@) == spec_prune(
                springs@,
                particles@,
            ),
        decreases n - i,
    {
        proof {
            lemma_prune_skip(springs@, particles@, i as int);
        }
        let ghost out0 = out@;
        let s = springs[i];
        let fa = find_particle(particles, s.ai);
        let fb = find_particle(particles, s.bi);
        if fa.is_some() && fb.is_some() {
            out.push(s);
            proof {
                assert(spring_valid(springs@[i as int], particles@));
                assert((out0 + seq![s]) + spec_prune(springs@.skip(i as int + 1), particles@)
                    =~= out0 + (seq![s] + spec_prune(springs@.skip(i as int + 1), particles@)));
            }
        } else {
            proof {
                assert(!spring_valid(springs@[i as int], particles@));
            }
        }
        i = i + 1;
    }
    proof {
        assert(springs@.skip(n as int) =~= Seq::<Spring>::empty());
        assert(out@ + Seq::<Spring>::empty() =~= out@);
    }
    out
}

/// Gravity pass over a particle collection.
fn apply_gravity_vec(particles: &mut Vec<Particle>)
    requires
        forall|j: int| 0 <= j < old(particles)@.len() ==> (#[trigger] old(
            particles,
        )@[j]).mass > 0,
    ensures
        final(particles)@ == spec_apply_gravity(old(particles)@),
{
    let n: usize = particles.len();
    let mut i: usize = 0;
    while i < n
        invariant
            0 <= i <= n,
            n == particles@.len(),
            particles@.len() == old(particles)@.len(),
            forall|j: int| i <= j < n ==> particles@[j] == old(particles)@[j],
            forall|j: int| 0 <= j < i ==> particles@[j] == spec_apply_force(
                old(particles)@[j],
                gravity_vector(),
            ),
            forall|j: int| 0 <= j < old(particles)@.len() ==> (#[trigger] old(
                particles,
            )@[j]).mass > 0,
        decreases n - i,
    {
        let mut p = particles[i];
        p.apply_force(Vector2::new(GRAVITY_X, GRAVITY_Y));
        particles.set(i, p);
        i = i + 1;
    }
    proof {
        assert(particles@ =~= spec_apply_gravity(old(particles)@));
    }
}

/// Integration pass over a particle collection.
fn integrate_vec(particles: &mut Vec<Particle>, dt: i64)
    ensures
        final(particles)@ == spec_integrate_all(old(particles)@, dt),
{
    let n: usize = particles.len();
    let mut i: usize = 0;
    while i < n
        invariant
            0 <= i <= n,
            n == particles@.len(),
            particles@.len() == old(particles)@.len(),
            forall|j: int| i <= j < n ==> particles@[j] == old(particles)@[j],
            forall|j: int| 0 <= j < i ==> particles@[j] == spec_integrate(
                old(particles)@[j],
                dt,
            ),
        decreases n - i,
    {
        let mut p = particles[i];
        p.update(dt);
        particles.set(i, p);
        i = i + 1;
    }
    proof {
        assert(particles@ =~= spec_integrate_all(old(particles)@, dt));
    }
}

impl World {
    /// Removes the particle carrying `id` (a no-op when none does) and
    /// immediately prunes the springs that referenced it, so the next
    /// force phase never sees a dangling spring. Reports whether such a
    /// particle existed.
    pub fn delete_particle(&mut self, id: u64) -> (r: bool)
        requires
            old(self).wf(),
        ensures
            final(self).wf(),
            final(self)@ == spec_delete_particle(old(self)@, id),
            r == has_id(old(self)@.particles, id),
    {
        let found = find_particle(&self.particles, id);
        match found {
            Some(i) => {
                proof {
                    lemma_first_with_id_is(self.particles@, id, i as int);
                }
                let _ = self.particles.remove(i);
                let pruned = prune_vec(&self.springs, &self.particles);
                self.springs = pruned;
                proof {
                    let w0 = old(self)@;
                    lemma_particles_wf_remove(w0.particles, w0.next_id, i as int);
                    lemma_prune_elements(w0.springs, self@.particles);
                    let ssp = self@.springs;
                    assert forall|j: int| 0 <= j < ssp.len() implies (#[trigger] ssp[j]).k > 0
                        && ssp[j].len >= 0 && spring_valid(ssp[j], self@.particles) by {
                        let j2: int = choose|j2: int|
                            0 <= j2 < w0.springs.len() && w0.springs[j2] == ssp[j];
                        assert(w0.springs[j2].k > 0);
                    }
                    assert(self@ =~= spec_delete_particle(old(self)@, id));
                }
                true
            },
            None => {
                proof {
                    lemma_prune_identity(self@.springs, self@.particles);
                    assert(self@ =~= spec_delete_particle(old(self)@, id));
                }
                false
            },
        }
    }

    /// Creates a spring between the particles carrying `id_a` and `id_b`,
    /// with the given stiffness (defaulting to `DEFAULT_STIFFNESS`). Fails
    /// with `InvalidReference` when either id does not currently exist,
    /// and with `InvalidParameter` for a non-positive stiffness.
    pub fn create_spring(&mut self, id_a: u64, id_b: u64, k: Option<i64>) -> (r: Result<
        Spring,
        WorldError,
    >)
        requires
            old(self).wf(),
        ensures
            final(self).wf(),
            final(self)@ == spec_create_spring(old(self)@, id_a, id_b, k),
            (r matches Ok(s) ==> can_create_spring(old(self)@, id_a, id_b, k)
                && final(self)@.springs == old(self)@.springs.push(s)),
            (r == Err::<Spring, WorldError>(WorldError::InvalidReference) <==> !has_id(
                old(self)@.particles,
                id_a,
            ) || !has_id(old(self)@.particles, id_b)),
            (r == Err::<Spring, WorldError>(WorldError::InvalidParameter) <==> has_id(
                old(self)@.particles,
                id_a,
            ) && has_id(old(self)@.particles, id_b) && !(k matches Some(v) ==> v > 0)),
    {
        let fa = find_particle(&self.particles, id_a);
        let fb = find_particle(&self.particles, id_b);
        match (fa, fb) {
            (Some(ia), Some(ib)) => {
                let k_ok: bool = match k {
                    Some(v) => v > 0,
                    None => true,
                };
                if !k_ok {
                    return Err(WorldError::InvalidParameter);
                }
                proof {
                    lemma_first_with_id_is(self.particles@, id_a, ia as int);
                    lemma_first_with_id_is(self.particles@, id_b, ib as int);
                }
                let pa = self.particles[ia];
                let pb = self.particles[ib];
                let s = Spring::new(&pa, &pb, k);
                self.springs.push(s);
                proof {
                    let w0 = old(self)@;
                    let ss = self@.springs;
                    assert forall|j: int| 0 <= j < ss.len() implies (#[trigger] ss[j]).k > 0
                        && ss[j].len >= 0 && spring_valid(ss[j], self@.particles) by {
                        if j < w0.springs.len() {
                            assert(ss[j] == w0.springs[j]);
                        } else {
                            assert(ss[j] == s);
                        }
                    }
                    assert(self@ =~= spec_create_spring(old(self)@, id_a, id_b, k));
                }
                Ok(s)
            },
            _ => {
                Err(WorldError::InvalidReference)
            },
        }
    }

    /// One simulation tick of elapsed time `dt`, executed only while
    /// running: prune dangling springs, apply gravity, apply every spring
    /// in stable creation order, integrate every particle.
    pub fn tick(&mut self, dt: i64)
        requires
            old(self).wf(),
        ensures
            final(self).wf(),
            final(self)@ == spec_tick(old(self)@, dt),
    {
        if !self.running {
            return;
        }
        let ghost w0 = old(self)@;
        let pruned = prune_vec(&self.springs, &self.particles);
        self.springs = pruned;
        proof {
            lemma_prune_elements(w0.springs, w0.particles);
        }
        apply_gravity_vec(&mut self.particles);
        let ghost ps_g = self.particles@;
        proof {
            assert forall|j: int| 0 <= j < ps_g.len() implies {
                &&& (#[trigger] ps_g[j]).id == w0.particles[j].id
                &&& ps_g[j].mass == w0.particles[j].mass
                &&& ps_g[j].dynamic == w0.particles[j].dynamic
            } by {
                assert(ps_g[j] == spec_apply_force(w0.particles[j], gravity_vector()));
            }
            assert(self.springs@.skip(0) =~= self.springs@);
        }
        let n: usize = self.springs.len();
        let mut i: usize = 0;
        while i < n
            invariant
                0 <= i <= n,
                n == self.springs@.len(),
                self.next_id == w0.next_id,
                self.running == w0.running,
                self.springs@ == spec_prune(w0.springs, w0.particles),
                spec_apply_springs(ps_g, self.springs@) == spec_apply_springs(
                    self.particles@,
                    self.springs@.skip(i as int),
                ),
                self.particles@.len() == w0.particles.len(),
                forall|j: int| 0 <= j < self.particles@.len() ==> {
                    &&& (#[trigger] self.particles@[j]).id == w0.particles[j].id
                    &&& self.particles@[j].mass == w0.particles[j].mass
                    &&& self.particles@[j].dynamic == w0.particles[j].dynamic
                },
                forall|j: int| 0 <= j < w0.particles.len() ==> (#[trigger] w0.particles[j]).mass
                    > 0,
            decreases n - i,
        {
            let s = self.springs[i];
            proof {
                lemma_apply_springs_skip(self.particles@, self.springs@, i as int);
            }
            let ghost prev = self.particles@;
            s.update(&mut self.particles);
            proof {
                lemma_spring_apply_preserves(prev, s);
            }
            i = i + 1;
        }
        proof {
            assert(self.springs@.skip(n as int) =~= Seq::<Spring>::empty());
        }
        let ghost ps_s = self.particles@;
        integrate_vec(&mut self.particles, dt);
        proof {
            let ssp = spec_prune(w0.springs, w0.particles);
            let ps3 = self@.particles;
            assert forall|j: int| 0 <= j < ps3.len() implies {
                &&& (#[trigger] ps3[j]).id == w0.particles[j].id
                &&& ps3[j].mass == w0.particles[j].mass
                &&& ps3[j].dynamic == w0.particles[j].dynamic
            } by {
                assert(ps3[j] == spec_integrate(ps_s[j], dt));
            }
            assert forall|a: int, b: int| 0 <= a < b < ps3.len() implies ps3[a].id
                < ps3[b].id by {
                assert(w0.particles[a].id < w0.particles[b].id);
            }
            assert forall|j: int| 0 <= j < ssp.len() implies (#[trigger] ssp[j]).k > 0
                && ssp[j].len >= 0 && spring_valid(ssp[j], ps3) by {
                let j2: int = choose|j2: int|
                    0 <= j2 < w0.springs.len() && w0.springs[j2] == ssp[j];
                assert(w0.springs[j2].k > 0);
                lemma_has_id_update_same_ids(w0.particles, ps3, ssp[j].ai);
                lemma_has_id_update_same_ids(w0.particles, ps3, ssp[j].bi);
            }
            assert(ps_g == spec_apply_gravity(w0.particles));
            assert(self@.springs == ssp);
            assert(spec_apply_springs(ps_s, ssp.skip(n as int)) == ps_s);
            assert(spec_apply_springs(ps_g, ssp) == ps_s);
            assert(ps3 == spec_integrate_all(
                spec_apply_springs(spec_apply_gravity(w0.particles), ssp),
                dt,
            ));
            assert(self@ =~= spec_tick(old(self)@, dt));
        }
    }
}

} // verus!
