//! Interpretation of pointer and key events.
//!
//! An event of the window is reduced to what the viewer reads of it, and
//! mapped to the one action that the viewer takes on it.

use vstd::prelude::*;

verus! {

/// The buttons that are held down while the pointer moves.
#[derive(Clone, Copy, Debug, PartialEq, Eq, Structural)]
pub struct MouseState {
    pub left: bool,
    pub middle: bool,
    pub right: bool,
}

/// An event of the window.
#[derive(Clone, Copy, Debug, PartialEq, Eq, Structural)]
pub enum Event {
    /// The window is to be closed.
    Quit,
    /// The pointer has moved by `xrel` and `yrel`.
    MouseMotion { state: MouseState, xrel: i32, yrel: i32 },
    /// The wheel has turned by `y`; `flipped` where the platform scrolls
    /// in the natural direction.
    MouseWheel { y: i32, flipped: bool },
    /// A key went down: whether it is the key F1, whether a modifier is
    /// held, and whether the key repeats.
    KeyDown { f1: bool, modifier: bool, repeat: bool },
    /// Any other event.
    Other,
}

/// What the viewer does on an event.
#[derive(Clone, Copy, Debug, PartialEq, Eq, Structural)]
pub enum Action {
    /// Leave the frame loop.
    Quit,
    /// Move the model in the view plane.
    Pan { x: i32, y: i32 },
    /// Turn the model about the axis perpendicular to the drag.
    Rotate { x: i32, y: i32 },
    /// Turn the model about the depth axis.
    Roll { x: i32 },
    /// Move the model along the depth axis.
    Dolly { z: i64 },
    /// Show or hide the texture.
    SwitchTexture,
    /// Do nothing.
    Nothing,
}

/// The action on `event`. A drag pans with the left button, rotates with
/// the middle button, and rolls with the right button where the pointer
/// has moved sideways; the first button of these that is held decides. The
/// wheel moves the model away, or towards the viewer where the platform
/// flips it. The key F1 alone, not repeating, switches the texture.
pub open spec fn action_of(event: Event) -> Action {
    match event {
        Event::Quit => Action::Quit,
        Event::MouseMotion { state, xrel, yrel } => if state.left {
            Action::Pan { x: xrel, y: yrel }
        } else if state.middle {
            Action::Rotate { x: xrel, y: yrel }
        } else if state.right && xrel != 0 {
            Action::Roll { x: xrel }
        } else {
            Action::Nothing
        },
        Event::MouseWheel { y, flipped } => if flipped {
            Action::Dolly { z: y as i64 }
        } else {
            Action::Dolly { z: (-(y as int)) as i64 }
        },
        Event::KeyDown { f1, modifier, repeat } => if f1 && !modifier && !repeat {
            Action::SwitchTexture
        } else {
            Action::Nothing
        },
        Event::Other => Action::Nothing,
    }
}

/// The action that the viewer takes on `event`.
pub fn dispatch(event: Event) -> (r: Action)
    ensures
        r == action_of(event),
{
    match event {
        Event::Quit => Action::Quit,
        Event::MouseMotion { state, xrel, yrel } => {
            if state.left {
                Action::Pan { x: xrel, y: yrel }
            } else if state.middle {
                Action::Rotate { x: xrel, y: yrel }
            } else if state.right && xrel != 0 {
                Action::Roll { x: xrel }
            } else {
                Action::Nothing
            }
        },
        Event::MouseWheel { y, flipped } => {
            let turn: i64 = y as i64;
            if flipped {
                Action::Dolly { z: turn }
            } else {
                Action::Dolly { z: -turn }
            }
        },
        Event::KeyDown { f1, modifier, repeat } => {
            if f1 && !modifier && !repeat {
                Action::SwitchTexture
            } else {
                Action::Nothing
            }
        },
        Event::Other => Action::Nothing,
    }
}

/// A direction with whole coordinates.
#[derive(Clone, Copy, Debug, PartialEq, Eq, Structural)]
pub struct Direction {
    pub d0: i32,
    pub d1: i32,
    pub d2: i32,
    /// Whether the direction has length one as it stands.
    pub unit: bool,
}

/// The sign by which a drag along one axis turns the model: one for a drag
/// in the positive direction, minus one otherwise.
pub open spec fn turn_sign(delta: i32) -> i32 {
    if delta > 0 {
        1i32
    } else {
        -1i32
    }
}

/// The axis about which a drag by `x` and `y` turns the model: an axis of
/// the view plane for a drag along the other one, and the drag with its
/// coordinates exchanged, to be brought to length one, for any other.
pub open spec fn drag_axis(x: i32, y: i32) -> Direction {
    if y == 0 {
        Direction { d0: 0, d1: turn_sign(x), d2: 0, unit: true }
    } else if x == 0 {
        Direction { d0: turn_sign(y), d1: 0, d2: 0, unit: true }
    } else {
        Direction { d0: y, d1: x, d2: 0, unit: false }
    }
}

/// The axis about which a drag by `x` and `y` turns the model.
pub fn rotation_axis(x: i32, y: i32) -> (r: Direction)
    ensures
        r == drag_axis(x, y),
{
    if y == 0 {
        let v: i32 = if x > 0 {
            1
        } else {
            -1
        };
        Direction { d0: 0, d1: v, d2: 0, unit: true }
    } else if x == 0 {
        let v: i32 = if y > 0 {
            1
        } else {
            -1
        };
        Direction { d0: v, d1: 0, d2: 0, unit: true }
    } else {
        Direction { d0: y, d1: x, d2: 0, unit: false }
    }
}

/// The axis about which a sideways drag with the right button rolls the
/// model: the depth axis.
pub fn roll_axis() -> (r: Direction)
    ensures
        r == (Direction { d0: 0, d1: 0, d2: 1, unit: true }),
{
    Direction { d0: 0, d1: 0, d2: 1, unit: true }
}

} // verus!
