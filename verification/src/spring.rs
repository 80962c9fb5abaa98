//! A Hookean spring between two particles, referenced by stable identity.
//!
//! A spring never owns its endpoints: it looks them up by id at each
//! update and silently does nothing when either endpoint is gone.

use vstd::prelude::*;
use crate::fixed::{clamped, div_trunc, mul_scaled, sub_sat, SCALE};
use crate::particle::{
    find_particle, first_with_id, has_id, lemma_first_with_id_is, spec_apply_force, Particle,
};
use crate::vector::{spec_mag, spec_neg, spec_norm, spec_scalar_mul, spec_sub, Vector2};

verus! {

/// Stiffness used when spring creation names none: 1000.0 in fixed point.
pub const DEFAULT_STIFFNESS: i64 = 1_000_000;

/// Stores the stable ids of both endpoint particles, the rest length and
/// the spring constant (k).
#[derive(Clone, Copy, Debug, PartialEq, Eq, Structural)]
pub struct Spring {
    pub ai: u64,
    pub bi: u64,
    pub len: i64,
    pub k: i64,
}

/// The force a spring exerts on its first endpoint: the direction from a
/// to b, scaled by stiffness times extension. A zero-length configuration
/// normalizes to the zero vector, so no force is applied even when the
/// extension is nonzero: that degenerate-case policy is deliberate.
pub open spec fn spec_spring_force(ps: Seq<Particle>, s: Spring) -> Vector2 {
    let pa = ps[first_with_id(ps, s.ai)];
    let pb = ps[first_with_id(ps, s.bi)];
    let delta: Vector2 = spec_sub(pb.pos, pa.pos);
    let ext: i64 = clamped(spec_mag(delta) - s.len);
    spec_scalar_mul(spec_norm(delta), clamped(div_trunc(s.k * ext, SCALE as int)))
}

/// One spring update over a particle collection: the force goes to the
/// first particle carrying `ai`, its negation to the first carrying `bi`
/// (Newton's third law pairing). When either id is absent nothing changes.
pub open spec fn spec_spring_apply(ps: Seq<Particle>, s: Spring) -> Seq<Particle> {
    if !has_id(ps, s.ai) || !has_id(ps, s.bi) {
        ps
    } else {
        let ia: int = first_with_id(ps, s.ai);
        let ib: int = first_with_id(ps, s.bi);
        let f: Vector2 = spec_spring_force(ps, s);
        let ps1 = ps.update(ia, spec_apply_force(ps[ia], f));
        ps1.update(ib, spec_apply_force(ps1[ib], spec_neg(f)))
    }
}

impl Spring {
    /// Creates a new spring connecting the given particles with the given
    /// spring constant (defaulting to `DEFAULT_STIFFNESS`). The rest
    /// length is the distance of the endpoints at this moment.
    pub fn new(a: &Particle, b: &Particle, k: Option<i64>) -> (r: Spring)
        requires
            k matches Some(v) ==> v > 0,
        ensures
            r.ai == a.id,
            r.bi == b.id,
            r.len == spec_mag(spec_sub(b.pos, a.pos)),
            r.len >= 0,
            r.k == (match k {
                Some(v) => v,
                None => DEFAULT_STIFFNESS,
            }),
            r.k > 0,
    {
        Spring {
            ai: a.get_i(),
            bi: b.get_i(),
            len: b.pos.sub(a.pos).mag(),
            k: match k {
                Some(v) => v,
                None => DEFAULT_STIFFNESS,
            },
        }
    }

    /// Return the stable id of the first endpoint.
    pub fn get_ai(&self) -> (r: u64)
        ensures
            r == self.ai,
    {
        self.ai
    }

    /// Return the stable id of the second endpoint.
    pub fn get_bi(&self) -> (r: u64)
        ensures
            r == self.bi,
    {
        self.bi
    }

    /// Applies the restoring force to both endpoints. A spring whose
    /// endpoints are gone is a no-op, not an error: pruning dangling
    /// springs is the owning collection's business.
    pub fn update(&self, particles: &mut Vec<Particle>)
        requires
            forall|i: int| 0 <= i < old(particles)@.len() ==> old(particles)@[i].mass > 0,
        ensures
            final(particles)@ == spec_spring_apply(old(particles)@, *self),
    {
        let ia_found = find_particle(particles, self.ai);
        let ib_found = find_particle(particles, self.bi);
        match (ia_found, ib_found) {
            (Some(ia), Some(ib)) => {
                proof {
                    lemma_first_with_id_is(particles@, self.ai, ia as int);
                    lemma_first_with_id_is(particles@, self.bi, ib as int);
                }
                let pa = particles[ia];
                let pb = particles[ib];
                let delta: Vector2 = pb.pos.sub(pa.pos);
                let ext: i64 = sub_sat(delta.mag(), self.len);
                let f: Vector2 = delta.norm().scalar_mul(mul_scaled(self.k, ext));
                let mut a = particles[ia];
                a.apply_force(f);
                particles.set(ia, a);
                let mut b = particles[ib];
                b.apply_force(f.neg());
                particles.set(ib, b);
            },
            _ => {},
        }
    }

    /// The two endpoint positions the renderer should connect with a line,
    /// or nothing when either endpoint is gone.
    pub fn draw(&self, particles: &Vec<Particle>) -> (r: Option<(Vector2, Vector2)>)
        ensures
            r == (if has_id(particles@, self.ai) && has_id(particles@, self.bi) {
                Some(
                    (
                        particles@[first_with_id(particles@, self.ai)].pos,
                        particles@[first_with_id(particles@, self.bi)].pos,
                    ),
                )
            } else {
                Option::<(Vector2, Vector2)>::None
            }),
    {
        let ia_found = find_particle(particles, self.ai);
        let ib_found = find_particle(particles, self.bi);
        match (ia_found, ib_found) {
            (Some(ia), Some(ib)) => {
                proof {
                    lemma_first_with_id_is(particles@, self.ai, ia as int);
                    lemma_first_with_id_is(particles@, self.bi, ib as int);
                }
                Some((particles[ia].pos, particles[ib].pos))
            },
            _ => None,
        }
    }
}

} // verus!
