//! Key codes and the events written to the virtual keyboard.
//!
//! A key is named by its code in the kernel's input event code space.

use vstd::prelude::*;

verus! {

/// The escape key.
pub const KEY_ESC: u16 = 1;

/// The left control key.
pub const KEY_LEFTCTRL: u16 = 29;

/// The left shift key.
pub const KEY_LEFTSHIFT: u16 = 42;

/// The right shift key.
pub const KEY_RIGHTSHIFT: u16 = 54;

/// The left alt key.
pub const KEY_LEFTALT: u16 = 56;

/// The caps lock key.
pub const KEY_CAPSLOCK: u16 = 58;

/// The right control key.
pub const KEY_RIGHTCTRL: u16 = 97;

/// The left meta key.
pub const KEY_LEFTMETA: u16 = 125;

/// The right meta key.
pub const KEY_RIGHTMETA: u16 = 126;

/// The compose key.
pub const KEY_COMPOSE: u16 = 127;

/// The fn key.
pub const KEY_FN: u16 = 0x1d0;

/// The left button of a pointing device.
pub const BTN_LEFT: u16 = 0x110;

/// The right button of a pointing device.
pub const BTN_RIGHT: u16 = 0x111;

/// A finger resting on a touchpad.
pub const BTN_TOUCH: u16 = 0x14a;

/// The horizontal absolute axis.
pub const ABS_X: u16 = 0;

/// The vertical absolute axis.
pub const ABS_Y: u16 = 1;

/// The type of an input event that reports a key or a button.
pub const EV_KEY: u16 = 1;

/// The type of an input event that reports a position on an absolute axis.
pub const EV_ABS: u16 = 3;

/// The value of a key event that reports a release.
pub const RELEASE: i32 = 0;

/// The value of a key event that reports a press.
pub const PRESS: i32 = 1;

/// A key event for the virtual keyboard: which key, and 0 for a release, 1
/// for a press, 2 for a repeat.
#[derive(Clone, Copy, Debug, PartialEq, Eq, Structural)]
pub struct KeyEvent {
    pub code: u16,
    pub value: i32,
}

impl KeyEvent {
    /// The event that reports `value` for the key `code`.
    pub fn new(code: u16, value: i32) -> (event: KeyEvent)
        ensures
            event == (KeyEvent { code, value }),
    {
        KeyEvent { code, value }
    }

    /// The event that releases the key `code`.
    pub open spec fn release(code: u16) -> KeyEvent {
        KeyEvent { code, value: RELEASE }
    }
}

} // verus!
