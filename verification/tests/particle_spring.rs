//! Scenario tests for particles and springs: static anchors never move,
//! a spring at rest length applies no force, and a stretched spring pulls
//! its dynamic endpoint inward.

use spring::particle::{find_particle, Particle};
use spring::spring::{Spring, DEFAULT_STIFFNESS};
use spring::vector::Vector2;

fn two_particles(b_x: i64) -> Vec<Particle> {
    let mut particles: Vec<Particle> = Vec::new();
    Particle::create(&mut particles, 0, Vector2::new(0, 0), 1000, false);
    Particle::create(&mut particles, 1, Vector2::new(b_x, 0), 1000, true);
    particles
}

#[test]
fn create_appends_resting_particle() {
    let particles = two_particles(10_000);
    assert_eq!(particles.len(), 2);
    assert_eq!(particles[1].get_i(), 1);
    assert_eq!(particles[1].pos, Vector2::new(10_000, 0));
    assert_eq!(particles[1].vel, Vector2::zero());
    assert_eq!(particles[1].acc, Vector2::zero());
    assert!(particles[1].is_dynamic());
    assert!(!particles[0].is_dynamic());
}

#[test]
fn static_particle_ignores_force_and_update() {
    let mut p = two_particles(0)[0];
    let before = p;
    p.apply_force(Vector2::new(500_000, -123_456));
    assert_eq!(p, before);
    p.update(1000);
    assert_eq!(p, before);
}

#[test]
fn apply_force_divides_by_mass() {
    let mut particles: Vec<Particle> = Vec::new();
    Particle::create(&mut particles, 7, Vector2::zero(), 2000, true);
    let mut p = particles[0];
    // (2.0, -4.0) force on mass 2.0 adds (1.0, -2.0) of acceleration.
    p.apply_force(Vector2::new(2000, -4000));
    assert_eq!(p.acc, Vector2::new(1000, -2000));
    // Position and velocity only change on update.
    assert_eq!(p.pos, Vector2::zero());
    assert_eq!(p.vel, Vector2::zero());
}

#[test]
fn update_damps_then_adds_impulse_then_moves() {
    let mut particles: Vec<Particle> = Vec::new();
    Particle::create(&mut particles, 7, Vector2::zero(), 1000, true);
    let mut p = particles[0];
    p.vel = Vector2::new(1000, 0);
    p.acc = Vector2::new(0, 2000);
    // dt = 0.5: vel = (1.0, 0) * 0.99 + (0, 2.0) * 0.5 = (0.99, 1.0);
    // pos = (0.495, 0.5); acc cleared.
    p.update(500);
    assert_eq!(p.vel, Vector2::new(990, 1000));
    assert_eq!(p.pos, Vector2::new(495, 500));
    assert_eq!(p.acc, Vector2::zero());
}

#[test]
fn spring_new_takes_rest_length_from_positions() {
    let particles = two_particles(10_000);
    let s = Spring::new(&particles[0], &particles[1], None);
    assert_eq!(s.get_ai(), 0);
    assert_eq!(s.get_bi(), 1);
    assert_eq!(s.len, 10_000);
    assert_eq!(s.k, DEFAULT_STIFFNESS);
    let s2 = Spring::new(&particles[0], &particles[1], Some(50_000));
    assert_eq!(s2.k, 50_000);
}

#[test]
fn spring_at_rest_length_applies_no_force() {
    // A static at (0,0), B dynamic at (10,0), stiffness 1000, rest length
    // 10: zero extension means zero net force.
    let mut particles = two_particles(10_000);
    let s = Spring::new(&particles[0], &particles[1], Some(1_000_000));
    s.update(&mut particles);
    assert_eq!(particles[0].acc, Vector2::zero());
    assert_eq!(particles[1].acc, Vector2::zero());
    particles[1].update(10);
    assert_eq!(particles[1].pos, Vector2::new(10_000, 0));
    assert_eq!(particles[1].vel, Vector2::zero());
}

#[test]
fn stretched_spring_pulls_dynamic_endpoint_inward() {
    // Rest length 10 between A(0,0) and B(20,0): after one force pass and
    // an integration of dt = 0.01, B moves toward A and A stays put.
    let mut particles = two_particles(10_000);
    let s = Spring::new(&particles[0], &particles[1], Some(1_000_000));
    particles[1].pos = Vector2::new(20_000, 0);
    s.update(&mut particles);
    let mut b = particles[1];
    b.update(10);
    assert!(b.pos.x < 20_000);
    assert_eq!(b.pos.x, 19_000);
    assert_eq!(b.pos.y, 0);
    assert_eq!(particles[0].pos, Vector2::zero());
    assert_eq!(particles[0].vel, Vector2::zero());
}

#[test]
fn compressed_spring_pushes_dynamic_endpoint_outward() {
    let mut particles = two_particles(10_000);
    let s = Spring::new(&particles[0], &particles[1], Some(1_000_000));
    particles[1].pos = Vector2::new(5_000, 0);
    s.update(&mut particles);
    let mut b = particles[1];
    b.update(10);
    assert!(b.pos.x > 5_000);
}

#[test]
fn spring_with_missing_endpoint_is_a_no_op() {
    let mut particles = two_particles(10_000);
    let s = Spring::new(&particles[0], &particles[1], None);
    particles.remove(0);
    let before = particles.clone();
    s.update(&mut particles);
    assert_eq!(particles, before);
}

#[test]
fn zero_length_spring_applies_no_force() {
    // Both endpoints at the same spot: the direction normalizes to zero,
    // so no force is applied even though the extension is nonzero.
    let mut particles: Vec<Particle> = Vec::new();
    Particle::create(&mut particles, 0, Vector2::new(500, 500), 1000, true);
    Particle::create(&mut particles, 1, Vector2::new(500, 500), 1000, true);
    let mut s = Spring::new(&particles[0], &particles[1], None);
    s.len = 10_000;
    s.update(&mut particles);
    assert_eq!(particles[0].acc, Vector2::zero());
    assert_eq!(particles[1].acc, Vector2::zero());
}

#[test]
fn spring_draw_reports_endpoint_positions() {
    let mut particles = two_particles(10_000);
    let s = Spring::new(&particles[0], &particles[1], None);
    assert_eq!(
        s.draw(&particles),
        Some((Vector2::zero(), Vector2::new(10_000, 0)))
    );
    particles.remove(1);
    assert_eq!(s.draw(&particles), None);
}

#[test]
fn particle_draw_uses_mass_as_radius() {
    let particles = two_particles(10_000);
    let snap = particles[1].draw();
    assert_eq!(snap.pos, Vector2::new(10_000, 0));
    assert_eq!(snap.radius, 1000);
    assert!(snap.dynamic);
}

#[test]
fn find_particle_returns_first_match() {
    let particles = two_particles(10_000);
    assert_eq!(find_particle(&particles, 0), Some(0));
    assert_eq!(find_particle(&particles, 1), Some(1));
    assert_eq!(find_particle(&particles, 2), None);
}
