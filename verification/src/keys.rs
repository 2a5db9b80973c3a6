//! Logical key events, independent of the OS hook that produces them.

use vstd::prelude::*;

verus! {

/// A logical key, resolved out of a raw virtual-key code. Printable keys
/// carry the character the active layout resolved; keys the layout cannot
/// resolve stay `Other` with their raw code.
#[derive(Debug, Clone, Copy, PartialEq, Eq, Structural)]
pub enum KeyCode {
    Char(char),
    Shift,
    Control,
    Alt,
    Escape,
    Backspace,
    CapsLock,
    Enter,
    Tab,
    Other(u32),
}

/// One hardware key transition.
#[derive(Debug, Clone, Copy, PartialEq, Eq, Structural)]
pub enum KeyEvent {
    KeyDown(KeyCode),
    KeyUp(KeyCode),
}

/// Modifier state at the moment a replacement is synthesized.
#[derive(Debug, Clone, Copy, PartialEq, Eq, Structural)]
pub struct KeyModifiers {
    pub shift_pressed: bool,
    pub caps_lock_on: bool,
    pub ctrl_pressed: bool,
    pub alt_pressed: bool,
}

impl Default for KeyModifiers {
    /// No modifier held.
    fn default() -> (r: KeyModifiers)
        ensures
            !r.shift_pressed && !r.caps_lock_on && !r.ctrl_pressed && !r.alt_pressed,
    {
        KeyModifiers {
            shift_pressed: false,
            caps_lock_on: false,
            ctrl_pressed: false,
            alt_pressed: false,
        }
    }
}

} // verus!
