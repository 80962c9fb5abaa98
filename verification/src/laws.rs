//! The laws the simulation obeys, stated over the mathematical model and
//! proved once and for all: properties of normalization, of static
//! particles, of deletion and pruning, of pausing, and of determinism.

use vstd::prelude::*;
use vstd::arithmetic::div_mod::lemma_fundamental_div_mod;
use crate::fixed::{
    abs_i, clamped, div_trunc, lemma_sqrt_floor_exists, sqrt_floor, LIMIT, SCALE,
};
use crate::particle::{first_with_id, has_id, spec_apply_force, spec_integrate, Particle};
use crate::spring::{spec_spring_apply, spec_spring_force, Spring};
use crate::vector::{
    mag2, spec_add, spec_mag, spec_neg, spec_norm, spec_scalar_div, spec_sub, Vector2,
};
use crate::world::{
    lemma_prune_elements, model_wf, spec_delete_particle, spec_prune, spec_remove_id, spec_run,
    spec_tick, spec_toggle, spring_valid, WorldModel, WorldOp,
};

verus! {

/// Law: normalizing the zero vector yields the zero vector — and only the
/// zero vector has zero magnitude.
pub proof fn lemma_normalize_zero(v: Vector2)
    requires
        mag2(v) == 0,
    ensures
        spec_norm(v) == v,
        v.x == 0 && v.y == 0,
{
    assert(v.x == 0 && v.y == 0) by (nonlinear_arith)
        requires
            v.x * v.x + v.y * v.y == 0,
    ;
}

/// What truncated division leaves of one scaled coordinate: the quotient
/// `q = (a * SCALE) / m` is at most `SCALE`, and `m * q` brackets
/// `a * SCALE` from below within one `m`.
proof fn lemma_scaled_quotient(a: int, m: int) by (nonlinear_arith)
    requires
        0 <= a <= m,
        1 <= m,
    ensures
        0 <= (a * SCALE) / m <= SCALE,
        m * m * (((a * SCALE) / m) * ((a * SCALE) / m)) <= (a * a) * ((SCALE * SCALE) as int),
        (a * a) * ((SCALE * SCALE) as int) < m * m * ((((a * SCALE) / m) + 1) * ((((a * SCALE)
            / m) + 1))),
{
    lemma_fundamental_div_mod(a * (SCALE as int), m);
}

/// Law: normalization yields a unit vector. For any vector at least one
/// world unit long, the magnitude of `normalize(v)` is one world unit
/// (`SCALE` raw steps), up to the fixed-point truncation error of at most
/// three raw steps. (Shorter nonzero vectors normalize with a larger
/// relative rounding error; the zero vector stays zero.)
pub proof fn lemma_normalize_unit(v: Vector2)
    requires
        mag2(v) >= SCALE * SCALE,
    ensures
        SCALE - 3 <= spec_mag(spec_norm(v)) <= SCALE,
{
    let s: int = SCALE as int;
    let n2: int = mag2(v);
    assert(n2 >= 0);
    lemma_sqrt_floor_exists(n2);
    let m: int = sqrt_floor(n2);
    assert(m * m <= n2 < (m + 1) * (m + 1));
    assert(m >= s) by (nonlinear_arith)
        requires
            (m + 1) * (m + 1) > n2,
            n2 >= s * s,
            m >= 0,
            s >= 1,
    ;
    let ax: int = abs_i(v.x as int);
    let ay: int = abs_i(v.y as int);
    assert(ax <= m && ay <= m) by (nonlinear_arith)
        requires
            ax == abs_i(v.x as int),
            ay == abs_i(v.y as int),
            v.x * v.x + v.y * v.y == n2,
            n2 < (m + 1) * (m + 1),
            m >= 0,
    ;
    let qx: int = (ax * s) / m;
    let qy: int = (ay * s) / m;
    lemma_scaled_quotient(ax, m);
    lemma_scaled_quotient(ay, m);
    // The normalized coordinates are the signed quotients, unclamped since
    // they stay within SCALE <= LIMIT.
    let nv = spec_norm(v);
    assert(nv.x == clamped(div_trunc(v.x * SCALE, m)) && nv.y == clamped(
        div_trunc(v.y * SCALE, m),
    ));
    assert(abs_i(div_trunc(v.x * SCALE, m)) == qx && abs_i(div_trunc(v.y * SCALE, m)) == qy)
        by (nonlinear_arith)
        requires
            m >= 1,
            ax == abs_i(v.x as int),
            ay == abs_i(v.y as int),
            qx == (ax * (SCALE as int)) / m,
            qy == (ay * (SCALE as int)) / m,
    ;
    assert(nv.x == clamped(div_trunc(v.x * SCALE, m)));
    assert(0 <= qx <= s && 0 <= qy <= s);
    assert(s <= LIMIT);
    assert(abs_i(nv.x as int) == qx && abs_i(nv.y as int) == qy);
    let m2: int = mag2(nv);
    assert(ax * ax == v.x * v.x && ay * ay == v.y * v.y) by (nonlinear_arith)
        requires
            ax == abs_i(v.x as int),
            ay == abs_i(v.y as int),
    ;
    assert(ax * ax + ay * ay == n2);
    assert(m2 == qx * qx + qy * qy) by (nonlinear_arith)
        requires
            m2 == nv.x * nv.x + nv.y * nv.y,
            abs_i(nv.x as int) == qx,
            abs_i(nv.y as int) == qy,
    ;
    // Upper bound: m2 <= s*s + 2*s, canceling m one factor at a time.
    assert(m * m * m2 <= n2 * (s * s)) by (nonlinear_arith)
        requires
            m2 == qx * qx + qy * qy,
            m * m * (qx * qx) <= (ax * ax) * (s * s),
            m * m * (qy * qy) <= (ay * ay) * (s * s),
            ax * ax + ay * ay == n2,
    ;
    assert(n2 * (s * s) <= (m * m + 2 * m) * (s * s)) by (nonlinear_arith)
        requires
            n2 < (m + 1) * (m + 1),
            s >= 1,
    ;
    assert(m * m * m2 <= m * m * (s * s) + 2 * m * (s * s)) by (nonlinear_arith)
        requires
            m * m * m2 <= n2 * (s * s),
            n2 * (s * s) <= (m * m + 2 * m) * (s * s),
    ;
    assert(m * m2 <= m * (s * s) + 2 * (s * s)) by (nonlinear_arith)
        requires
            m * m * m2 <= m * m * (s * s) + 2 * m * (s * s),
            m >= 1,
    ;
    assert(m2 <= s * s + 2 * s) by (nonlinear_arith)
        requires
            m * m2 <= m * (s * s) + 2 * (s * s),
            m >= s >= 1,
    ;
    // Lower bound: m2 >= s*s - 4*s - 1, the same way.
    assert(n2 * (s * s) < m * m * (m2 + 2 * qx + 2 * qy + 2)) by (nonlinear_arith)
        requires
            m2 == qx * qx + qy * qy,
            (ax * ax) * (s * s) < m * m * ((qx + 1) * (qx + 1)),
            (ay * ay) * (s * s) < m * m * ((qy + 1) * (qy + 1)),
            ax * ax + ay * ay == n2,
    ;
    assert(m * m * (s * s) <= n2 * (s * s)) by (nonlinear_arith)
        requires
            n2 >= m * m,
            s >= 1,
    ;
    assert(s * s < m2 + 2 * qx + 2 * qy + 2) by (nonlinear_arith)
        requires
            m * m * (s * s) < m * m * (m2 + 2 * qx + 2 * qy + 2),
            m >= 1,
    ;
    assert(m2 >= s * s - 4 * s - 1) by (nonlinear_arith)
        requires
            s * s < m2 + 2 * qx + 2 * qy + 2,
            0 <= qx <= s,
            0 <= qy <= s,
    ;
    lemma_sqrt_floor_exists(m2);
    let r: int = sqrt_floor(m2);
    assert(s - 3 <= r <= s) by (nonlinear_arith)
        requires
            r * r <= m2 < (r + 1) * (r + 1),
            s * s - 4 * s - 1 <= m2 <= s * s + 2 * s,
            r >= 0,
            s == 1000,
    ;
    assert(spec_mag(nv) == clamped(r));
}

/// Nothing divided stays nothing.
proof fn lemma_div_trunc_zero(b: int)
    requires
        b != 0,
    ensures
        div_trunc(0, b) == 0,
{
    assert(abs_i(0int) / abs_i(b) == 0) by (nonlinear_arith)
        requires
            b != 0,
    ;
}

/// A spring whose endpoints stand at its rest length exerts the zero
/// force — and so does the degenerate zero-length configuration, whose
/// direction normalizes to the zero vector by policy.
proof fn lemma_spring_force_zero(ps: Seq<Particle>, s: Spring)
    requires
        ({
            let delta = spec_sub(
                ps[first_with_id(ps, s.bi)].pos,
                ps[first_with_id(ps, s.ai)].pos,
            );
            spec_mag(delta) == s.len || (delta.x == 0 && delta.y == 0)
        }),
    ensures
        spec_spring_force(ps, s) == (Vector2 { x: 0i64, y: 0i64 }),
{
    let delta = spec_sub(ps[first_with_id(ps, s.bi)].pos, ps[first_with_id(ps, s.ai)].pos);
    let f = spec_spring_force(ps, s);
    lemma_div_trunc_zero(SCALE as int);
    if delta.x == 0 && delta.y == 0 {
        assert(mag2(delta) == 0) by (nonlinear_arith)
            requires
                delta.x == 0 && delta.y == 0,
        ;
        let sc: i64 = clamped(div_trunc(s.k * clamped(spec_mag(delta) - s.len), SCALE as int));
        assert(f.x == clamped(div_trunc(0 * sc, SCALE as int)));
        assert(f.y == clamped(div_trunc(0 * sc, SCALE as int)));
        assert(f.x == 0 && f.y == 0);
    } else {
        let dir = spec_norm(delta);
        assert(clamped(spec_mag(delta) - s.len) == 0);
        assert(s.k * clamped(spec_mag(delta) - s.len) == 0) by (nonlinear_arith)
            requires
                clamped(spec_mag(delta) - s.len) == 0,
    ;
        assert(f.x == clamped(div_trunc(dir.x * 0, SCALE as int)));
        assert(f.y == clamped(div_trunc(dir.y * 0, SCALE as int)));
        assert(dir.x * 0 == 0 && dir.y * 0 == 0) by (nonlinear_arith);
        assert(f.x == 0 && f.y == 0);
    }
}

/// Law: a spring at its rest length changes nothing. When the endpoints
/// stand exactly at the rest distance (zero extension) — or on top of
/// each other, the degenerate case — one spring update returns the
/// particle collection unchanged.
pub proof fn lemma_spring_at_rest_applies_nothing(ps: Seq<Particle>, s: Spring)
    requires
        has_id(ps, s.ai),
        has_id(ps, s.bi),
        forall|i: int| 0 <= i < ps.len() ==> (#[trigger] ps[i]).mass > 0,
        forall|i: int| 0 <= i < ps.len() ==> {
            &&& -LIMIT <= (#[trigger] ps[i]).acc.x <= LIMIT
            &&& -LIMIT <= ps[i].acc.y <= LIMIT
        },
        ({
            let delta = spec_sub(
                ps[first_with_id(ps, s.bi)].pos,
                ps[first_with_id(ps, s.ai)].pos,
            );
            spec_mag(delta) == s.len || (delta.x == 0 && delta.y == 0)
        }),
    ensures
        spec_spring_apply(ps, s) == ps,
{
    lemma_spring_force_zero(ps, s);
    crate::particle::lemma_first_with_id_exists(ps, s.ai);
    crate::particle::lemma_first_with_id_exists(ps, s.bi);
    let ia: int = first_with_id(ps, s.ai);
    let ib: int = first_with_id(ps, s.bi);
    let f = spec_spring_force(ps, s);
    assert(spec_neg(f) == f);
    assert forall|i: int| 0 <= i < ps.len() implies spec_apply_force(#[trigger] ps[i], f)
        == ps[i] by {
        let p = ps[i];
        if p.dynamic {
            lemma_div_trunc_zero(p.mass as int);
            assert(spec_scalar_div(f, p.mass) == (Vector2 { x: 0i64, y: 0i64 }));
            assert(spec_add(p.acc, Vector2 { x: 0i64, y: 0i64 }) == p.acc);
        }
    }
    let ps1 = ps.update(ia, spec_apply_force(ps[ia], f));
    assert(ps1 =~= ps);
    assert(ps1.update(ib, spec_apply_force(ps1[ib], spec_neg(f))) =~= ps);
}

/// Law: a static particle is immovable. Force application and integration
/// leave every field of a non-dynamic particle unchanged, whatever the
/// force and whatever the time step.
pub proof fn lemma_static_particle_immovable(p: Particle, f: Vector2, dt: i64)
    requires
        !p.dynamic,
    ensures
        spec_apply_force(p, f) == p,
        spec_integrate(p, dt) == p,
{
}

/// Law: deletion leaves no dangling reference. In a well-formed world,
/// after `delete_particle(id)` no spring references `id` — and none does
/// after any further tick either, since a tick only ever discards springs.
pub proof fn lemma_delete_leaves_no_reference(w: WorldModel, id: u64, dt: i64)
    requires
        model_wf(w),
    ensures
        forall|j: int| 0 <= j < spec_delete_particle(w, id).springs.len() ==> {
            &&& (#[trigger] spec_delete_particle(w, id).springs[j]).ai != id
            &&& spec_delete_particle(w, id).springs[j].bi != id
        },
        forall|j: int|
            0 <= j < spec_tick(spec_delete_particle(w, id), dt).springs.len() ==> {
                &&& (#[trigger] spec_tick(spec_delete_particle(w, id), dt).springs[j]).ai != id
                &&& spec_tick(spec_delete_particle(w, id), dt).springs[j].bi != id
            },
{
    let ps = w.particles;
    let ps2 = spec_remove_id(ps, id);
    assert(!has_id(ps2, id)) by {
        if has_id(ps, id) {
            crate::particle::lemma_first_with_id_exists(ps, id);
            let i: int = crate::particle::first_with_id(ps, id);
            assert forall|j: int| 0 <= j < ps2.len() implies (#[trigger] ps2[j]).id != id by {
                if j < i {
                    assert(ps2[j] == ps[j]);
                    assert(ps[j].id < ps[i].id);
                } else {
                    assert(ps2[j] == ps[j + 1]);
                    assert(ps[i].id < ps[j + 1].id);
                }
            }
        }
    }
    let w2 = spec_delete_particle(w, id);
    lemma_prune_elements(w.springs, ps2);
    assert forall|j: int| 0 <= j < w2.springs.len() implies (#[trigger] w2.springs[j]).ai != id
        && w2.springs[j].bi != id by {
        assert(spring_valid(w2.springs[j], ps2));
    }
    let w3 = spec_tick(w2, dt);
    if w2.running {
        lemma_prune_elements(w2.springs, w2.particles);
        assert forall|j: int| 0 <= j < w3.springs.len() implies (#[trigger] w3.springs[j]).ai
            != id && w3.springs[j].bi != id by {
            let j2: int = choose|j2: int|
                0 <= j2 < w2.springs.len() && w2.springs[j2] == w3.springs[j];
            assert(w2.springs[j2].ai != id);
        }
    }
}

/// Law: toggling the running state twice returns the world to exactly its
/// original state — particles, springs and id counter untouched.
pub proof fn lemma_toggle_twice_identity(w: WorldModel)
    ensures
        spec_toggle(spec_toggle(w)) == w,
{
    assert(spec_toggle(spec_toggle(w)) =~= w);
}

/// Law: the simulation is deterministic. The contract of every mutating
/// operation pins the new state to a function of the old state and the
/// request alone, so two worlds fed the same history of `(dt, operation)`
/// requests end in the same state — trajectories are reproducible.
pub proof fn lemma_deterministic(
    w1: WorldModel,
    w2: WorldModel,
    ops1: Seq<WorldOp>,
    ops2: Seq<WorldOp>,
)
    requires
        w1 == w2,
        ops1 == ops2,
    ensures
        spec_run(w1, ops1) == spec_run(w2, ops2),
{
}

} // verus!
