//! The event model: the closed set of input-event variants the counter
//! engine classifies, and a two-dimensional integer point.
use vstd::prelude::*;

verus! {

/// Windows message number for a mouse movement.
pub const MSG_MOUSE_MOVE: i32 = 0x200;
/// Windows message number for a left-button press.
pub const MSG_LEFT_DOWN: i32 = 0x201;
/// Windows message number for a left-button release.
pub const MSG_LEFT_UP: i32 = 0x202;
/// Windows message number for a right-button press.
pub const MSG_RIGHT_DOWN: i32 = 0x204;
/// Windows message number for a right-button release.
pub const MSG_RIGHT_UP: i32 = 0x205;
/// Windows message number for a wheel rotation.
pub const MSG_WHEEL: i32 = 0x20A;
/// Message number carried by middle-button presses as the hook delivers them.
pub const MSG_MIDDLE_DOWN: i32 = 0x2B;
/// Message number carried by middle-button releases as the hook delivers them.
pub const MSG_MIDDLE_UP: i32 = 0x20C;

/// Windows message number for an ordinary key press.
pub const MSG_KEY_DOWN: u32 = 0x100;
/// Windows message number for an ordinary key release.
pub const MSG_KEY_UP: u32 = 0x101;
/// Windows message number for a system key press (a key held with Alt).
pub const MSG_SYS_KEY_DOWN: u32 = 0x104;
/// Windows message number for a system key release.
pub const MSG_SYS_KEY_UP: u32 = 0x105;

/// A key transition: a press or a release of the virtual key with the
/// given platform-independent code.
#[derive(Clone, Copy, PartialEq, Eq, Structural, Debug)]
pub enum KeyEvent {
    KeyPress(u32),
    KeyUp(u32),
}

/// A screen position in integer pixel coordinates.
#[derive(Clone, Copy, PartialEq, Eq, Structural, Debug)]
pub struct Point {
    pub x: i32,
    pub y: i32,
}

impl Default for Point {
    /// The origin.
    fn default() -> (p: Point)
        ensures
            p == (Point { x: 0, y: 0 }),
    {
        Point { x: 0, y: 0 }
    }
}

/// The kind of a mouse event the engine can classify.
#[derive(Clone, Copy, PartialEq, Eq, Structural, Debug)]
pub enum MouseEvent {
    MouseMove,
    MouseLeftButtonDown,
    MouseLeftButtonUp,
    MouseRightButtonDown,
    MouseRightButtonUp,
    MouseWheelRouting,
    MouseMiddleButtonDown,
    MouseMiddleButtonUp,
}

/// Which mouse event a raw hook message number stands for, if any.
pub open spec fn spec_mouse_event_from_code(code: i32) -> Option<MouseEvent> {
    if code == MSG_MOUSE_MOVE {
        Some(MouseEvent::MouseMove)
    } else if code == MSG_LEFT_DOWN {
        Some(MouseEvent::MouseLeftButtonDown)
    } else if code == MSG_LEFT_UP {
        Some(MouseEvent::MouseLeftButtonUp)
    } else if code == MSG_RIGHT_DOWN {
        Some(MouseEvent::MouseRightButtonDown)
    } else if code == MSG_RIGHT_UP {
        Some(MouseEvent::MouseRightButtonUp)
    } else if code == MSG_WHEEL {
        Some(MouseEvent::MouseWheelRouting)
    } else if code == MSG_MIDDLE_DOWN {
        Some(MouseEvent::MouseMiddleButtonDown)
    } else if code == MSG_MIDDLE_UP {
        Some(MouseEvent::MouseMiddleButtonUp)
    } else {
        None
    }
}

impl MouseEvent {
    /// Decodes a raw mouse hook message number; numbers outside the
    /// recognized set are not classifiable and yield `None`.
    pub fn from_code(code: i32) -> (r: Option<MouseEvent>)
        ensures
            r == spec_mouse_event_from_code(code),
    {
        if code == MSG_MOUSE_MOVE {
            Some(MouseEvent::MouseMove)
        } else if code == MSG_LEFT_DOWN {
            Some(MouseEvent::MouseLeftButtonDown)
        } else if code == MSG_LEFT_UP {
            Some(MouseEvent::MouseLeftButtonUp)
        } else if code == MSG_RIGHT_DOWN {
            Some(MouseEvent::MouseRightButtonDown)
        } else if code == MSG_RIGHT_UP {
            Some(MouseEvent::MouseRightButtonUp)
        } else if code == MSG_WHEEL {
            Some(MouseEvent::MouseWheelRouting)
        } else if code == MSG_MIDDLE_DOWN {
            Some(MouseEvent::MouseMiddleButtonDown)
        } else if code == MSG_MIDDLE_UP {
            Some(MouseEvent::MouseMiddleButtonUp)
        } else {
            None
        }
    }
}

/// One input event: a key transition, or a mouse event at a position.
#[derive(Clone, Copy, PartialEq, Eq, Debug)]
pub enum Event {
    KeyEvent(KeyEvent),
    MouseEvent((MouseEvent, Point)),
}

/// Which key event a raw keyboard hook message stands for, if any:
/// ordinary and system presses map to `KeyPress`, releases to `KeyUp`.
pub open spec fn spec_key_event_from_message(message: u32, code: u32) -> Option<KeyEvent> {
    if message == MSG_KEY_DOWN || message == MSG_SYS_KEY_DOWN {
        Some(KeyEvent::KeyPress(code))
    } else if message == MSG_KEY_UP || message == MSG_SYS_KEY_UP {
        Some(KeyEvent::KeyUp(code))
    } else {
        None
    }
}

impl KeyEvent {
    /// Decodes a raw keyboard hook message number and virtual key code;
    /// messages outside the recognized set yield `None`.
    pub fn from_message(message: u32, code: u32) -> (r: Option<KeyEvent>)
        ensures
            r == spec_key_event_from_message(message, code),
    {
        if message == MSG_KEY_DOWN || message == MSG_SYS_KEY_DOWN {
            Some(KeyEvent::KeyPress(code))
        } else if message == MSG_KEY_UP || message == MSG_SYS_KEY_UP {
            Some(KeyEvent::KeyUp(code))
        } else {
            None
        }
    }
}

} // verus!
