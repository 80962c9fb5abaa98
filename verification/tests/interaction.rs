//! Scenario tests for the interaction layer: clicks create, select,
//! connect and delete; keys toggle the simulation and cycle the tool.

use spring::config::Config;
use spring::interact::{InputEvent, Key, MouseButton, MouseState, Session, Tool, DEFAULT_MASS};
use spring::vector::Vector2;
use spring::world::World;

#[test]
fn config_defaults_match_the_documented_colors() {
    let c = Config::default();
    assert_eq!(c.color.background, (0, 0, 0));
    assert_eq!(c.color.dynamic_particle, (0, 255, 255));
    assert_eq!(c.color.static_particle, (255, 0, 0));
}

#[test]
fn mouse_state_tracks_presses_releases_and_motion() {
    let mut ms = MouseState::new();
    assert_eq!(ms.button, None);
    assert_eq!(ms.pos, Vector2::zero());
    ms.update(InputEvent::MouseButtonPressed { button: MouseButton::Left, x: 3, y: 4 });
    assert_eq!(ms.button, Some(MouseButton::Left));
    assert_eq!(ms.pos, Vector2::new(3000, 4000));
    ms.update(InputEvent::MouseMoved { x: 5, y: 6 });
    assert_eq!(ms.button, Some(MouseButton::Left));
    assert_eq!(ms.pos, Vector2::new(5000, 6000));
    ms.update(InputEvent::MouseButtonReleased { button: MouseButton::Left, x: 7, y: 8 });
    assert_eq!(ms.button, None);
    assert_eq!(ms.pos, Vector2::new(7000, 8000));
    ms.update(InputEvent::KeyPressed { code: Key::Space });
    assert_eq!(ms.pos, Vector2::new(7000, 8000));
}

#[test]
fn tab_cycles_the_tools() {
    let mut s = Session::new();
    let mut w = World::new();
    assert_eq!(s.tool, Tool::CreateDynamic);
    s.handle_event(&mut w, InputEvent::KeyPressed { code: Key::Tab });
    assert_eq!(s.tool, Tool::CreateStatic);
    s.handle_event(&mut w, InputEvent::KeyPressed { code: Key::Tab });
    assert_eq!(s.tool, Tool::Delete);
    s.handle_event(&mut w, InputEvent::KeyPressed { code: Key::Tab });
    assert_eq!(s.tool, Tool::CreateDynamic);
}

#[test]
fn space_toggles_the_simulation() {
    let mut s = Session::new();
    let mut w = World::new();
    assert!(!w.is_running());
    s.handle_event(&mut w, InputEvent::KeyPressed { code: Key::Space });
    assert!(w.is_running());
    s.handle_event(&mut w, InputEvent::KeyPressed { code: Key::Space });
    assert!(!w.is_running());
}

#[test]
fn closed_event_ends_the_session() {
    let mut s = Session::new();
    let mut w = World::new();
    assert!(s.window_open);
    s.handle_event(&mut w, InputEvent::Closed);
    assert!(!s.window_open);
}

#[test]
fn right_click_on_empty_space_creates_a_particle() {
    let mut s = Session::new();
    let mut w = World::new();
    s.handle_event(&mut w, InputEvent::MouseButtonPressed {
        button: MouseButton::Right,
        x: 100,
        y: 50,
    });
    assert_eq!(w.particles().len(), 1);
    let p = w.particles()[0];
    assert_eq!(p.pos, Vector2::new(100_000, 50_000));
    assert_eq!(p.mass, DEFAULT_MASS);
    assert!(p.is_dynamic());
    // With the static tool the created particle is an anchor.
    s.handle_event(&mut w, InputEvent::KeyPressed { code: Key::Tab });
    s.handle_event(&mut w, InputEvent::MouseButtonPressed {
        button: MouseButton::Right,
        x: 300,
        y: 50,
    });
    assert_eq!(w.particles().len(), 2);
    assert!(!w.particles()[1].is_dynamic());
}

#[test]
fn left_click_never_creates() {
    let mut s = Session::new();
    let mut w = World::new();
    s.handle_event(&mut w, InputEvent::MouseButtonPressed {
        button: MouseButton::Left,
        x: 100,
        y: 50,
    });
    assert_eq!(w.particles().len(), 0);
}

#[test]
fn clicking_two_particles_connects_them_with_a_spring() {
    let mut s = Session::new();
    let mut w = World::new();
    let press = |x: i64, y: i64| InputEvent::MouseButtonPressed {
        button: MouseButton::Right,
        x,
        y,
    };
    // Create two particles far apart, then click each in turn.
    s.handle_event(&mut w, press(100, 100));
    s.handle_event(&mut w, press(300, 100));
    assert_eq!(w.particles().len(), 2);
    s.handle_event(&mut w, press(100, 100));
    assert_eq!(s.selected, Some(0));
    assert_eq!(w.springs().len(), 0);
    s.handle_event(&mut w, press(300, 100));
    assert_eq!(s.selected, None);
    assert_eq!(w.springs().len(), 1);
    let spring = w.springs()[0];
    assert_eq!(spring.get_ai(), 1);
    assert_eq!(spring.get_bi(), 0);
    assert_eq!(spring.len, 200_000);
}

#[test]
fn delete_tool_removes_the_hovered_particle() {
    let mut s = Session::new();
    let mut w = World::new();
    let a = w.create_particle(Vector2::new(100_000, 50_000), 16_000, true).unwrap();
    // Tab twice to the delete tool, hold the right button over the
    // particle, and apply the per-frame mouse behavior.
    s.handle_event(&mut w, InputEvent::KeyPressed { code: Key::Tab });
    s.handle_event(&mut w, InputEvent::KeyPressed { code: Key::Tab });
    s.handle_event(&mut w, InputEvent::MouseButtonPressed {
        button: MouseButton::Right,
        x: 100,
        y: 50,
    });
    assert_eq!(w.particles().len(), 1);
    s.apply_mouse(&mut w);
    assert_eq!(w.particles().len(), 0);
    assert!(!w.delete_particle(a));
}

#[test]
fn held_left_button_drags_the_hovered_particle() {
    let mut s = Session::new();
    let mut w = World::new();
    w.create_particle(Vector2::new(100_000, 50_000), 16_000, true).unwrap();
    s.handle_event(&mut w, InputEvent::MouseButtonPressed {
        button: MouseButton::Left,
        x: 100,
        y: 50,
    });
    s.handle_event(&mut w, InputEvent::MouseMoved { x: 110, y: 60 });
    s.apply_mouse(&mut w);
    let p = w.particles()[0];
    assert_eq!(p.pos, Vector2::new(110_000, 60_000));
    assert_eq!(p.vel, Vector2::zero());
}
