//! Mouse buttons and their states, as tray icon events report them.

use vstd::prelude::*;

verus! {

/// The state of a mouse button.
#[derive(Clone, Copy, Debug, PartialEq, Eq)]
pub enum MouseButtonState {
    /// The button is up.
    Up,
    /// The button is down.
    Down,
}

impl MouseButtonState {
    /// The state of a button that is not pressed.
    pub fn default() -> (r: Self)
        ensures
            r == MouseButtonState::Up,
    {
        MouseButtonState::Up
    }
}

/// A mouse button.
#[derive(Clone, Copy, Debug, PartialEq, Eq)]
pub enum MouseButton {
    /// The left button.
    Left,
    /// The right button.
    Right,
    /// The middle button.
    Middle,
}

impl MouseButton {
    /// The left button, the one a click means by default.
    pub fn default() -> (r: Self)
        ensures
            r == MouseButton::Left,
    {
        MouseButton::Left
    }
}

} // verus!
