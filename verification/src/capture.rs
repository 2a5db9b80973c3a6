//! The capture layer's verified half: the echo-suppression gate, the
//! mapping of raw virtual-key codes to logical keys, and the single
//! entry point through which the hook hands events to the engine.

use vstd::prelude::*;
use crate::engine::{opt_action_view, spec_step, Action, EngineState};
use crate::keys::{KeyCode, KeyEvent};

verus! {

/// The echo-suppression gate. While it is engaged the engine is
/// synthesizing input, and every keystroke delivered to the hook must be
/// discarded: otherwise the engine would re-match against its own typed
/// replacement text.
pub struct EchoGate {
    engaged: bool,
}

impl View for EchoGate {
    type V = bool;

    closed spec fn view(&self) -> bool {
        self.engaged
    }
}

impl EchoGate {
    /// A fresh gate, not engaged.
    pub fn new() -> (r: EchoGate)
        ensures
            !r@,
    {
        EchoGate { engaged: false }
    }
}

/// Record whether the engine is currently generating synthetic input.
pub fn set_generating_input(gate: &mut EchoGate, generating: bool)
    ensures
        final(gate)@ == generating,
{
    gate.engaged = generating;
}

/// Is the engine currently generating synthetic input?
pub fn is_generating_input(gate: &EchoGate) -> (r: bool)
    ensures
        r == gate@,
{
    gate.engaged
}

/// The logical key a raw virtual-key code stands for, given the character
/// (if any) the active keyboard layout resolved for it.
pub open spec fn spec_key_code_from_vk(vk: u32, translated: Option<char>) -> KeyCode {
    if vk == 0x10 || vk == 0xA0 || vk == 0xA1 {
        KeyCode::Shift
    } else if vk == 0x11 || vk == 0xA2 || vk == 0xA3 {
        KeyCode::Control
    } else if vk == 0x12 || vk == 0xA4 || vk == 0xA5 {
        KeyCode::Alt
    } else if vk == 0x1B {
        KeyCode::Escape
    } else if vk == 0x08 {
        KeyCode::Backspace
    } else if vk == 0x14 {
        KeyCode::CapsLock
    } else if vk == 0x0D {
        KeyCode::Enter
    } else if vk == 0x09 {
        KeyCode::Tab
    } else {
        match translated {
            Some(c) => KeyCode::Char(c),
            None => KeyCode::Other(vk),
        }
    }
}

/// Translate a raw virtual-key code to a logical key. Modifier, editing
/// and navigation keys map by their code alone; for any other key the
/// layout's translation decides, and a key the layout cannot resolve stays
/// `Other` — a translation failure never crashes the hook.
pub fn key_code_from_vk(vk: u32, translated: Option<char>) -> (r: KeyCode)
    ensures
        r == spec_key_code_from_vk(vk, translated),
{
    if vk == 0x10 || vk == 0xA0 || vk == 0xA1 {
        KeyCode::Shift
    } else if vk == 0x11 || vk == 0xA2 || vk == 0xA3 {
        KeyCode::Control
    } else if vk == 0x12 || vk == 0xA4 || vk == 0xA5 {
        KeyCode::Alt
    } else if vk == 0x1B {
        KeyCode::Escape
    } else if vk == 0x08 {
        KeyCode::Backspace
    } else if vk == 0x14 {
        KeyCode::CapsLock
    } else if vk == 0x0D {
        KeyCode::Enter
    } else if vk == 0x09 {
        KeyCode::Tab
    } else {
        match translated {
            Some(c) => KeyCode::Char(c),
            None => KeyCode::Other(vk),
        }
    }
}

/// The shifted partner of a base character on the reference layout: the
/// symbol produced when the key for `c` is struck with Shift held.
pub open spec fn spec_shifted_symbol(c: char) -> Option<char> {
    match c {
        ';' => Some(':'),
        ',' => Some('<'),
        '.' => Some('>'),
        '/' => Some('?'),
        '\'' => Some('"'),
        '[' => Some('{'),
        ']' => Some('}'),
        '\\' => Some('|'),
        '`' => Some('~'),
        '1' => Some('!'),
        '2' => Some('@'),
        '3' => Some('#'),
        '4' => Some('$'),
        '5' => Some('%'),
        '6' => Some('^'),
        '7' => Some('&'),
        '8' => Some('*'),
        '9' => Some('('),
        '0' => Some(')'),
        '-' => Some('_'),
        '=' => Some('+'),
        _ => None,
    }
}

/// Look the shifted partner of a base character up.
pub fn shifted_symbol(c: char) -> (r: Option<char>)
    ensures
        r == spec_shifted_symbol(c),
{
    match c {
        ';' => Some(':'),
        ',' => Some('<'),
        '.' => Some('>'),
        '/' => Some('?'),
        '\'' => Some('"'),
        '[' => Some('{'),
        ']' => Some('}'),
        '\\' => Some('|'),
        '`' => Some('~'),
        '1' => Some('!'),
        '2' => Some('@'),
        '3' => Some('#'),
        '4' => Some('$'),
        '5' => Some('%'),
        '6' => Some('^'),
        '7' => Some('&'),
        '8' => Some('*'),
        '9' => Some('('),
        '0' => Some(')'),
        '-' => Some('_'),
        '=' => Some('+'),
        _ => None,
    }
}

/// The typed character a translation stands for under the current modifier
/// state: with Shift or Caps Lock active, a base character with a shifted
/// partner yields that partner, anything else stays as translated.
pub open spec fn spec_resolve_typed_char(c: char, shift: bool, caps: bool) -> char {
    if shift || caps {
        match spec_shifted_symbol(c) {
            Some(s) => s,
            None => c,
        }
    } else {
        c
    }
}

/// Resolve the character actually typed from the layout's translation and
/// the modifier state.
pub fn resolve_typed_char(c: char, shift_pressed: bool, caps_lock_on: bool) -> (r: char)
    ensures
        r == spec_resolve_typed_char(c, shift_pressed, caps_lock_on),
{
    if shift_pressed || caps_lock_on {
        match shifted_symbol(c) {
            Some(s) => s,
            None => c,
        }
    } else {
        c
    }
}

/// The hook's single delivery point. While the echo gate is engaged, the
/// event is discarded without being forwarded: the engine state — its
/// buffer above all — stays exactly as it was and no action is produced.
/// Otherwise the engine consumes the event as usual.
pub fn deliver_event(
    gate: &EchoGate,
    engine: &mut EngineState,
    event: KeyEvent,
    now_ms: u64,
) -> (r: Option<Action>)
    requires
        old(engine).wf(),
    ensures
        final(engine).wf(),
        gate@ ==> final(engine)@ == old(engine)@ && r is None,
        !gate@ ==> (final(engine)@, opt_action_view(r)) == spec_step(
            old(engine)@,
            event,
            now_ms,
        ),
{
    if is_generating_input(gate) {
        None
    } else {
        engine.handle_key_event(event, now_ms)
    }
}

} // verus!
