//! The interaction layer: translates pointer and key events into world
//! mutations — create, select, connect, delete, toggle-run — and tracks
//! the pointer state between frames.

use vstd::prelude::*;
use crate::fixed::{clamped, mul_sat, SCALE};
use crate::vector::Vector2;
use crate::world::{
    spec_create_particle, spec_create_spring, spec_delete_particle, spec_find_near,
    spec_move_particle, spec_toggle, World, WorldModel,
};

verus! {

/// Pixel radius around the pointer within which a click hits a particle:
/// 10.0 in fixed point.
pub const BRUSH: i64 = 10_000;

/// Mass (and visual radius) of particles created by a click: 16.0 in
/// fixed point.
pub const DEFAULT_MASS: i64 = 16_000;

/// The mouse buttons the interaction layer distinguishes.
#[derive(Clone, Copy, Debug, PartialEq, Eq, Structural)]
pub enum MouseButton {
    Left,
    Right,
    Middle,
    Other,
}

/// The keys the interaction layer distinguishes: space toggles the
/// simulation, tab cycles the tool.
#[derive(Clone, Copy, Debug, PartialEq, Eq, Structural)]
pub enum Key {
    Space,
    Tab,
    Other,
}

/// One discrete input event, polled once per frame by the shell.
/// Coordinates are window pixels.
#[derive(Clone, Copy, Debug, PartialEq, Eq, Structural)]
pub enum InputEvent {
    Closed,
    KeyPressed { code: Key },
    MouseButtonPressed { button: MouseButton, x: i64, y: i64 },
    MouseButtonReleased { button: MouseButton, x: i64, y: i64 },
    MouseMoved { x: i64, y: i64 },
}

/// A pixel coordinate as a world position (one pixel is one world unit).
pub open spec fn pixel_vector(x: i64, y: i64) -> Vector2 {
    Vector2 { x: clamped(x * SCALE), y: clamped(y * SCALE) }
}

/// A pixel coordinate as a world position (one pixel is one world unit).
pub fn to_world_pos(x: i64, y: i64) -> (r: Vector2)
    ensures
        r == pixel_vector(x, y),
{
    Vector2 { x: mul_sat(x, SCALE), y: mul_sat(y, SCALE) }
}

/// Captures the pressed mouse button and the current pointer position
/// (already in world coordinates).
#[derive(Clone, Copy, Debug, PartialEq, Eq)]
pub struct MouseState {
    pub button: Option<MouseButton>,
    pub pos: Vector2,
}

/// What one event does to the mouse state: presses remember the button,
/// releases forget it, and all three update the position.
pub open spec fn spec_update_mouse(ms: MouseState, event: InputEvent) -> MouseState {
    match event {
        InputEvent::MouseButtonPressed { button, x, y } => MouseState {
            button: Some(button),
            pos: pixel_vector(x, y),
        },
        InputEvent::MouseButtonReleased { button, x, y } => MouseState {
            button: None,
            pos: pixel_vector(x, y),
        },
        InputEvent::MouseMoved { x, y } => MouseState { button: ms.button, pos: pixel_vector(x, y) },
        _ => ms,
    }
}

impl MouseState {
    /// Creates a new mouse state: no button held, pointer at the origin.
    pub fn new() -> (r: MouseState)
        ensures
            r == (MouseState { button: None::<MouseButton>, pos: Vector2 { x: 0i64, y: 0i64 } }),
    {
        MouseState { button: None, pos: Vector2::zero() }
    }

    /// Updates the button and position of the mouse state.
    pub fn update(&mut self, event: InputEvent)
        ensures
            *final(self) == spec_update_mouse(*old(self), event),
    {
        match event {
            InputEvent::MouseButtonPressed { button, x, y } => {
                self.button = Some(button);
                self.pos = to_world_pos(x, y);
            },
            InputEvent::MouseButtonReleased { button: _, x, y } => {
                self.button = None;
                self.pos = to_world_pos(x, y);
            },
            InputEvent::MouseMoved { x, y } => {
                self.pos = to_world_pos(x, y);
            },
            _ => {},
        }
    }
}

/// The tool a right click applies: create a dynamic particle, create a
/// static anchor, or delete what is under the pointer.
#[derive(Clone, Copy, Debug, PartialEq, Eq, Structural)]
pub enum Tool {
    CreateDynamic,
    CreateStatic,
    Delete,
}

/// The tab key cycles the tools in this fixed order.
pub open spec fn spec_next_tool(t: Tool) -> Tool {
    match t {
        Tool::CreateDynamic => Tool::CreateStatic,
        Tool::CreateStatic => Tool::Delete,
        Tool::Delete => Tool::CreateDynamic,
    }
}

impl Tool {
    /// The next tool in the cycle.
    pub fn next(self) -> (r: Tool)
        ensures
            r == spec_next_tool(self),
    {
        match self {
            Tool::CreateDynamic => Tool::CreateStatic,
            Tool::CreateStatic => Tool::Delete,
            Tool::Delete => Tool::CreateDynamic,
        }
    }

    /// Whether this tool creates particles.
    pub fn creates(self) -> (r: bool)
        ensures
            r == (self is CreateDynamic || self is CreateStatic),
    {
        match self {
            Tool::CreateDynamic => true,
            Tool::CreateStatic => true,
            Tool::Delete => false,
        }
    }
}

/// The per-frame interaction state: pointer, chosen tool, the particle
/// selected as a spring endpoint, and whether the window stays open.
#[derive(Clone, Copy, Debug, PartialEq, Eq)]
pub struct Session {
    pub mouse: MouseState,
    pub tool: Tool,
    pub selected: Option<u64>,
    pub window_open: bool,
}

/// What one event does to the session state.
pub open spec fn spec_handle_session(s: Session, w: WorldModel, event: InputEvent) -> Session {
    match event {
        InputEvent::Closed => Session { window_open: false, ..s },
        InputEvent::KeyPressed { code } => {
            if code is Tab {
                Session { tool: spec_next_tool(s.tool), ..s }
            } else {
                s
            }
        },
        InputEvent::MouseButtonPressed { button, x, y } => {
            let s1 = if button is Right && (s.tool is CreateDynamic || s.tool is CreateStatic) {
                match spec_find_near(w.particles, pixel_vector(x, y), BRUSH) {
                    Some(pid) => {
                        if s.selected is Some {
                            Session { selected: None::<u64>, ..s }
                        } else {
                            Session { selected: Some(pid), ..s }
                        }
                    },
                    None => Session { selected: None::<u64>, ..s },
                }
            } else {
                s
            };
            Session { mouse: spec_update_mouse(s1.mouse, event), ..s1 }
        },
        InputEvent::MouseButtonReleased { .. } => Session {
            mouse: spec_update_mouse(s.mouse, event),
            ..s
        },
        InputEvent::MouseMoved { .. } => Session { mouse: spec_update_mouse(s.mouse, event), ..s },
    }
}

/// What one event does to the world: space toggles the running state; a
/// right click with a create tool either starts a selection on a hit
/// particle, connects the hit particle to the earlier selection with a
/// spring, or creates a particle at the pointer.
pub open spec fn spec_handle_world(s: Session, w: WorldModel, event: InputEvent) -> WorldModel {
    match event {
        InputEvent::KeyPressed { code } => {
            if code is Space {
                spec_toggle(w)
            } else {
                w
            }
        },
        InputEvent::MouseButtonPressed { button, x, y } => {
            if button is Right && (s.tool is CreateDynamic || s.tool is CreateStatic) {
                let pos = pixel_vector(x, y);
                match spec_find_near(w.particles, pos, BRUSH) {
                    Some(pid) => {
                        match s.selected {
                            Some(sel) => spec_create_spring(w, pid, sel, None::<i64>),
                            None => w,
                        }
                    },
                    None => spec_create_particle(w, pos, DEFAULT_MASS, s.tool is CreateDynamic),
                }
            } else {
                w
            }
        },
        _ => w,
    }
}

/// What the held mouse button does once per frame: the left button drags
/// the hovered particle (unless a spring endpoint is being selected), and
/// the right button with the delete tool removes the hovered particle.
pub open spec fn spec_apply_mouse(s: Session, w: WorldModel) -> WorldModel {
    if s.mouse.button == Some(MouseButton::Left) && s.selected is None {
        match spec_find_near(w.particles, s.mouse.pos, BRUSH) {
            Some(pid) => spec_move_particle(w, pid, s.mouse.pos),
            None => w,
        }
    } else if s.mouse.button == Some(MouseButton::Right) && s.tool is Delete {
        match spec_find_near(w.particles, s.mouse.pos, BRUSH) {
            Some(pid) => spec_delete_particle(w, pid),
            None => w,
        }
    } else {
        w
    }
}

impl Session {
    /// A fresh session: dynamic-particle tool, nothing selected, window
    /// open.
    pub fn new() -> (r: Session)
        ensures
            r == (Session {
                mouse: MouseState { button: None::<MouseButton>, pos: Vector2 { x: 0i64, y: 0i64 } },
                tool: Tool::CreateDynamic,
                selected: None::<u64>,
                window_open: true,
            }),
    {
        Session {
            mouse: MouseState::new(),
            tool: Tool::CreateDynamic,
            selected: None,
            window_open: true,
        }
    }

    /// Feeds one polled event to the session and the world.
    pub fn handle_event(&mut self, world: &mut World, event: InputEvent)
        requires
            old(world).wf(),
        ensures
            final(world).wf(),
            *final(self) == spec_handle_session(*old(self), old(world)@, event),
            final(world)@ == spec_handle_world(*old(self), old(world)@, event),
    {
        match event {
            InputEvent::Closed => {
                self.window_open = false;
            },
            InputEvent::KeyPressed { code } => {
                match code {
                    Key::Space => world.toggle_running(),
                    Key::Tab => {
                        self.tool = self.tool.next();
                    },
                    Key::Other => {},
                }
            },
            InputEvent::MouseButtonPressed { button, x, y } => {
                let right = match button {
                    MouseButton::Right => true,
                    _ => false,
                };
                if right && self.tool.creates() {
                    let pos = to_world_pos(x, y);
                    match world.find_particle_near(pos, BRUSH) {
                        Some(pid) => {
                            match self.selected {
                                Some(sel) => {
                                    self.selected = None;
                                    let _ = world.create_spring(pid, sel, None);
                                },
                                None => {
                                    self.selected = Some(pid);
                                },
                            }
                        },
                        None => {
                            self.selected = None;
                            let dynamic = match self.tool {
                                Tool::CreateDynamic => true,
                                _ => false,
                            };
                            let _ = world.create_particle(pos, DEFAULT_MASS, dynamic);
                        },
                    }
                }
                self.mouse.update(event);
            },
            InputEvent::MouseButtonReleased { .. } => {
                self.mouse.update(event);
            },
            InputEvent::MouseMoved { .. } => {
                self.mouse.update(event);
            },
        }
    }

    /// Applies the held-button behavior once per frame.
    pub fn apply_mouse(&self, world: &mut World)
        requires
            old(world).wf(),
        ensures
            final(world).wf(),
            final(world)@ == spec_apply_mouse(*self, old(world)@),
    {
        let held_left = match self.mouse.button {
            Some(MouseButton::Left) => true,
            _ => false,
        };
        let held_right = match self.mouse.button {
            Some(MouseButton::Right) => true,
            _ => false,
        };
        let deleting = match self.tool {
            Tool::Delete => true,
            _ => false,
        };
        if held_left && self.selected.is_none() {
            match world.find_particle_near(self.mouse.pos, BRUSH) {
                Some(pid) => {
                    let _ = world.move_particle(pid, self.mouse.pos);
                },
                None => {},
            }
        } else if held_right && deleting {
            match world.find_particle_near(self.mouse.pos, BRUSH) {
                Some(pid) => {
                    let _ = world.delete_particle(pid);
                },
                None => {},
            }
        }
    }
}

} // verus!
