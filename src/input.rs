//! Routing window input: the UI overlay sees an event first, and game input
//! acts only on what the UI did not consume.
use vstd::prelude::*;

verus! {

/// A window event, reduced to what routing reads.
#[derive(Clone, Copy, Debug, PartialEq, Eq, Structural)]
pub enum InputEvent {
    /// A key went down; `escape` tells whether it is the Escape key.
    KeyPressed { key: u32, escape: bool },
    KeyReleased { key: u32 },
    /// A mouse button went down.
    MousePressed,
    Other,
}

/// What the window does with an event.
#[derive(Clone, Copy, Debug, PartialEq, Eq, Structural)]
pub enum InputAction {
    Ignore,
    /// Free the pointer.
    ReleaseCapture,
    /// Capture the pointer.
    Capture,
    PressKey(u32),
    ReleaseKey(u32),
}

/// What to do with `event`, given whether the UI consumed it and whether the pointer is
/// captured: nothing for consumed events; while captured, Escape frees the pointer and
/// other keys go down; keys come up whatever the capture; a click captures the pointer.
pub fn route_input(event: InputEvent, consumed_by_ui: bool, captured: bool) -> (r: InputAction)
    ensures
        r == if consumed_by_ui {
            InputAction::Ignore
        } else {
            match event {
                InputEvent::KeyPressed { key, escape } => if !captured {
                    InputAction::Ignore
                } else if escape {
                    InputAction::ReleaseCapture
                } else {
                    InputAction::PressKey(key)
                },
                InputEvent::KeyReleased { key } => InputAction::ReleaseKey(key),
                InputEvent::MousePressed => InputAction::Capture,
                InputEvent::Other => InputAction::Ignore,
            }
        },
{
    if consumed_by_ui {
        return InputAction::Ignore;
    }
    match event {
        InputEvent::KeyPressed { key, escape } => {
            if !captured {
                InputAction::Ignore
            } else if escape {
                InputAction::ReleaseCapture
            } else {
                InputAction::PressKey(key)
            }
        },
        InputEvent::KeyReleased { key } => InputAction::ReleaseKey(key),
        InputEvent::MousePressed => InputAction::Capture,
        InputEvent::Other => InputAction::Ignore,
    }
}

} // verus!
