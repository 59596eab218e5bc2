//! Pointer state of the rendering context.

use vstd::prelude::*;

verus! {

/// Which mouse button is held down.
#[derive(Clone, Copy, Debug, PartialEq, Eq, Structural)]
pub enum MouseButtonState {
    Right,
    Left,
    /// No button is held down.
    Released,
}

/// A mouse button as the window system reports it.
#[derive(Clone, Copy, Debug, PartialEq, Eq, Structural)]
pub enum MouseButton {
    Left,
    Right,
    /// Any other button.
    Other,
}

/// A position in physical pixels. Each coordinate is a double-precision
/// number, kept by its IEEE-754 bit pattern.
#[derive(Clone, Copy, Debug, PartialEq, Eq, Structural)]
pub struct PhysicalPosition {
    pub x: u64,
    pub y: u64,
}

/// Where the pointer is, which button is down and which object is selected.
#[derive(Clone, Copy, Debug, PartialEq, Eq, Structural)]
pub struct MouseState {
    pub coords: PhysicalPosition,
    pub pressed: MouseButtonState,
    pub selection: Option<u32>,
}

impl MouseState {
    /// The pointer at the origin, no button down, nothing selected.
    pub fn new() -> (mouse: MouseState)
        ensures
            mouse == (MouseState {
                coords: PhysicalPosition { x: 0, y: 0 },
                pressed: MouseButtonState::Released,
                selection: None,
            }),
    {
        MouseState {
            coords: PhysicalPosition { x: 0, y: 0 },
            pressed: MouseButtonState::Released,
            selection: None,
        }
    }

    /// The selection after a pick of `pick_id`: picking the selected object
    /// again clears the selection, picking anything else selects it.
    pub open spec fn toggled(selection: Option<u32>, pick_id: u32) -> Option<u32> {
        if selection == Some(pick_id) {
            None
        } else {
            Some(pick_id)
        }
    }

    /// Selects the picked object, or clears the selection where the object
    /// was selected already.
    pub fn toggle(&mut self, pick_id: u32)
        ensures
            *final(self) == (MouseState {
                selection: Self::toggled(old(self).selection, pick_id),
                ..*old(self)
            }),
    {
        self.selection = match self.selection {
            Some(id) => if id != pick_id {
                Some(pick_id)
            } else {
                None
            },
            None => Some(pick_id),
        };
    }

    /// The button that is held down after `button` went down (`pressed`) or up.
    pub open spec fn after_button(
        held: MouseButtonState,
        button: MouseButton,
        pressed: bool,
    ) -> MouseButtonState {
        if !pressed {
            MouseButtonState::Released
        } else {
            match button {
                MouseButton::Left => MouseButtonState::Left,
                MouseButton::Right => MouseButtonState::Right,
                MouseButton::Other => held,
            }
        }
    }

    /// Takes note of a button that went down (`pressed`) or up.
    ///
    /// Returns whether a pick is due: the left button went down.
    pub fn on_button(&mut self, button: MouseButton, pressed: bool) -> (pick: bool)
        ensures
            *final(self) == (MouseState {
                pressed: Self::after_button(old(self).pressed, button, pressed),
                ..*old(self)
            }),
            pick == (pressed && button == MouseButton::Left),
    {
        match (button, pressed) {
            (MouseButton::Left, true) => {
                self.pressed = MouseButtonState::Left;
                true
            },
            (MouseButton::Right, true) => {
                self.pressed = MouseButtonState::Right;
                false
            },
            (_, false) => {
                self.pressed = MouseButtonState::Released;
                false
            },
            _ => false,
        }
    }
}

} // verus!
