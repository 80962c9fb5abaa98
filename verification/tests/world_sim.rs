//! Scenario tests for the world: creation, deletion, pruning, pausing,
//! gravity, and reproducibility.

use spring::vector::Vector2;
use spring::world::{World, WorldError};

#[test]
fn new_world_is_empty_and_paused() {
    let w = World::new();
    assert!(!w.is_running());
    assert_eq!(w.particles().len(), 0);
    assert_eq!(w.springs().len(), 0);
}

#[test]
fn create_particle_assigns_fresh_ids() {
    let mut w = World::new();
    let a = w.create_particle(Vector2::zero(), 1000, true).unwrap();
    let b = w.create_particle(Vector2::new(5000, 0), 1000, false).unwrap();
    assert_eq!(a, 0);
    assert_eq!(b, 1);
    assert_eq!(w.particles().len(), 2);
}

#[test]
fn create_particle_rejects_non_positive_mass() {
    let mut w = World::new();
    assert_eq!(
        w.create_particle(Vector2::zero(), 0, true),
        Err(WorldError::InvalidParameter)
    );
    assert_eq!(
        w.create_particle(Vector2::zero(), -1000, true),
        Err(WorldError::InvalidParameter)
    );
    assert_eq!(w.particles().len(), 0);
}

#[test]
fn deleted_ids_are_never_reused() {
    let mut w = World::new();
    let a = w.create_particle(Vector2::zero(), 1000, true).unwrap();
    assert!(w.delete_particle(a));
    let b = w.create_particle(Vector2::zero(), 1000, true).unwrap();
    assert_ne!(a, b);
    assert!(!w.delete_particle(a));
}

#[test]
fn create_spring_requires_existing_endpoints() {
    let mut w = World::new();
    let a = w.create_particle(Vector2::zero(), 1000, false).unwrap();
    assert_eq!(
        w.create_spring(a, 99, None),
        Err(WorldError::InvalidReference)
    );
    assert_eq!(
        w.create_spring(99, a, None),
        Err(WorldError::InvalidReference)
    );
    let b = w.create_particle(Vector2::new(10_000, 0), 1000, true).unwrap();
    assert_eq!(
        w.create_spring(a, b, Some(0)),
        Err(WorldError::InvalidParameter)
    );
    let s = w.create_spring(a, b, None).unwrap();
    assert_eq!(s.len, 10_000);
    assert_eq!(w.springs().len(), 1);
    assert_eq!(w.springs()[0], s);
}

#[test]
fn toggle_running_twice_restores_everything() {
    let mut w = World::new();
    let a = w.create_particle(Vector2::zero(), 1000, false).unwrap();
    let b = w.create_particle(Vector2::new(10_000, 0), 1000, true).unwrap();
    w.create_spring(a, b, None).unwrap();
    let particles_before = w.particles().clone();
    let springs_before = w.springs().clone();
    let running_before = w.is_running();
    w.toggle_running();
    assert_eq!(w.is_running(), !running_before);
    w.toggle_running();
    assert_eq!(w.is_running(), running_before);
    assert_eq!(w.particles(), &particles_before);
    assert_eq!(w.springs(), &springs_before);
}

#[test]
fn tick_while_paused_changes_nothing() {
    let mut w = World::new();
    w.create_particle(Vector2::zero(), 1000, true).unwrap();
    let before = w.particles().clone();
    w.tick(1000);
    assert_eq!(w.particles(), &before);
}

#[test]
fn gravity_pulls_a_dynamic_particle_down() {
    let mut w = World::new();
    let a = w.create_particle(Vector2::zero(), 16_000, true).unwrap();
    w.toggle_running();
    // dt = 1s: acceleration 100000/16 = 6250 units, velocity 6250,
    // displacement 6250 units straight down.
    w.tick(1000);
    let p = w.particles()[0];
    assert_eq!(p.get_i(), a);
    assert_eq!(p.pos, Vector2::new(0, 6_250_000));
    assert_eq!(p.vel, Vector2::new(0, 6_250_000));
}

#[test]
fn gravity_leaves_static_anchors_alone() {
    let mut w = World::new();
    w.create_particle(Vector2::new(100, 200), 16_000, false).unwrap();
    w.toggle_running();
    w.tick(1000);
    let p = w.particles()[0];
    assert_eq!(p.pos, Vector2::new(100, 200));
    assert_eq!(p.vel, Vector2::zero());
}

#[test]
fn delete_particle_prunes_its_springs() {
    let mut w = World::new();
    let a = w.create_particle(Vector2::zero(), 1000, false).unwrap();
    let b = w.create_particle(Vector2::new(10_000, 0), 1000, true).unwrap();
    let c = w.create_particle(Vector2::new(0, 10_000), 1000, true).unwrap();
    w.create_spring(a, b, None).unwrap();
    w.create_spring(b, c, None).unwrap();
    w.create_spring(a, c, None).unwrap();
    assert!(w.delete_particle(b));
    // Eager pruning: no surviving spring references the deleted id.
    assert_eq!(w.springs().len(), 1);
    for s in w.springs() {
        assert_ne!(s.get_ai(), b);
        assert_ne!(s.get_bi(), b);
    }
    // And one tick later the invariant still holds, paused or not.
    w.toggle_running();
    w.tick(10);
    for s in w.springs() {
        assert_ne!(s.get_ai(), b);
        assert_ne!(s.get_bi(), b);
    }
}

#[test]
fn find_particle_near_honors_radius_and_order() {
    let mut w = World::new();
    let a = w.create_particle(Vector2::zero(), 16_000, false).unwrap();
    let b = w.create_particle(Vector2::new(1000, 0), 16_000, true).unwrap();
    // Both are within reach of the origin; the first in creation order
    // wins.
    assert_eq!(w.find_particle_near(Vector2::zero(), 10_000), Some(a));
    // Out of reach: 16.0 + 10.0 < 100.0.
    assert_eq!(
        w.find_particle_near(Vector2::new(100_000, 0), 10_000),
        None
    );
    assert!(w.delete_particle(a));
    assert_eq!(w.find_particle_near(Vector2::zero(), 10_000), Some(b));
}

#[test]
fn move_particle_repositions_and_stops_it() {
    let mut w = World::new();
    let a = w.create_particle(Vector2::zero(), 16_000, true).unwrap();
    w.toggle_running();
    w.tick(1000);
    assert!(w.move_particle(a, Vector2::new(777, -777)));
    let p = w.particles()[0];
    assert_eq!(p.pos, Vector2::new(777, -777));
    assert_eq!(p.vel, Vector2::zero());
    assert!(!w.move_particle(42, Vector2::zero()));
}

#[test]
fn identical_histories_give_identical_trajectories() {
    let run = || {
        let mut w = World::new();
        let a = w.create_particle(Vector2::zero(), 1000, false).unwrap();
        let b = w
            .create_particle(Vector2::new(15_000, 0), 1000, true)
            .unwrap();
        w.create_spring(a, b, Some(500_000)).unwrap();
        w.toggle_running();
        for dt in [7, 16, 16, 17, 100, 3] {
            w.tick(dt);
        }
        w.delete_particle(a);
        w.tick(16);
        w
    };
    let w1 = run();
    let w2 = run();
    assert_eq!(w1.particles(), w2.particles());
    assert_eq!(w1.springs(), w2.springs());
    assert_eq!(w1.is_running(), w2.is_running());
}

#[test]
fn spring_tick_pulls_endpoints_together() {
    let mut w = World::new();
    // Two dynamic particles held apart farther than the spring's rest
    // length; gravity acts equally on both, so only the spring changes
    // their horizontal distance.
    let a = w.create_particle(Vector2::zero(), 1000, true).unwrap();
    let b = w.create_particle(Vector2::new(20_000, 0), 1000, true).unwrap();
    w.create_spring(a, b, Some(1_000_000)).unwrap();
    // Stretch it by moving b outward after creation.
    assert!(w.move_particle(b, Vector2::new(30_000, 0)));
    w.toggle_running();
    w.tick(10);
    let pa = w.particles()[0];
    let pb = w.particles()[1];
    assert!(pa.pos.x > 0);
    assert!(pb.pos.x < 30_000);
}
