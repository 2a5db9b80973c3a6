//! The trigger engine: it owns the rolling buffer and the current
//! configuration snapshot, consumes logical key events, and decides the
//! action — a replacement, a code-replacement request, or an overlay
//! command. All outside work (synthesizing input, running an interpreter,
//! talking to the overlay) is carried out by the caller on the returned
//! action.

use vstd::prelude::*;
use crate::buffer::{spec_push, RollingBuffer};
use crate::config::{ConfigV, ReplacementV, TextraConfig, Replacement};
use crate::gesture::spec_gesture_press;
use crate::keys::{KeyCode, KeyEvent};
use crate::matching::{find_match, spec_find_match};
use crate::replacement::{propagate_case, spec_propagate_case};
use crate::IDLE_THRESHOLD_MS;

verus! {

/// What the engine asks its caller to do after a key event.
#[derive(Debug, Clone, PartialEq)]
pub enum Action {
    /// Delete the trigger and type `text` in its place.
    Replace { trigger: String, text: String },
    /// Run `content` through the interpreter for `language`; the output (or
    /// an inline error text) replaces the trigger.
    RunCode { trigger: String, language: String, content: String },
    /// Make the template picker visible.
    ShowOverlay,
    /// Hide the template picker.
    HideOverlay,
}

/// Mathematical model of an action.
pub ghost enum ActionV {
    Replace { trigger: Seq<char>, text: Seq<char> },
    RunCode { trigger: Seq<char>, language: Seq<char>, content: Seq<char> },
    ShowOverlay,
    HideOverlay,
}

impl View for Action {
    type V = ActionV;

    open spec fn view(&self) -> ActionV {
        match self {
            Action::Replace { trigger, text } => ActionV::Replace {
                trigger: trigger@,
                text: text@,
            },
            Action::RunCode { trigger, language, content } => ActionV::RunCode {
                trigger: trigger@,
                language: language@,
                content: content@,
            },
            Action::ShowOverlay => ActionV::ShowOverlay,
            Action::HideOverlay => ActionV::HideOverlay,
        }
    }
}

/// The action an optional value stands for.
pub open spec fn opt_action_view(r: Option<Action>) -> Option<ActionV> {
    match r {
        Some(a) => Some(a@),
        None => None,
    }
}

/// Mathematical model of the engine state.
pub ghost struct EngineV {
    pub config: ConfigV,
    pub buffer: Seq<char>,
    pub last_key_time_ms: u64,
    pub shift_pressed: bool,
    pub ctrl_pressed: bool,
    pub alt_pressed: bool,
    pub caps_lock_on: bool,
    pub killswitch: bool,
    pub overlay_visible: bool,
    pub last_shift_time_ms: Option<u64>,
}

/// The engine state: configuration snapshot, rolling buffer, modifier
/// flags, the killswitch, overlay visibility, and the timestamps that drive
/// the idle reset and the double-shift gesture. Timestamps are monotonic
/// milliseconds supplied by the caller with each event.
pub struct EngineState {
    pub config: TextraConfig,
    pub buffer: RollingBuffer,
    pub last_key_time_ms: u64,
    pub shift_pressed: bool,
    pub ctrl_pressed: bool,
    pub alt_pressed: bool,
    pub caps_lock_on: bool,
    pub killswitch: bool,
    pub overlay_visible: bool,
    pub last_shift_time_ms: Option<u64>,
}

impl View for EngineState {
    type V = EngineV;

    open spec fn view(&self) -> EngineV {
        EngineV {
            config: self.config@,
            buffer: self.buffer@,
            last_key_time_ms: self.last_key_time_ms,
            shift_pressed: self.shift_pressed,
            ctrl_pressed: self.ctrl_pressed,
            alt_pressed: self.alt_pressed,
            caps_lock_on: self.caps_lock_on,
            killswitch: self.killswitch,
            overlay_visible: self.overlay_visible,
            last_shift_time_ms: self.last_shift_time_ms,
        }
    }
}

/// More than the idle threshold elapsed since the previous keystroke.
pub open spec fn idle_expired(last_ms: u64, now_ms: u64) -> bool {
    now_ms > last_ms && now_ms - last_ms > IDLE_THRESHOLD_MS
}

/// The replacement decision for a matched rule: a simple replacement is
/// case-propagated against the trigger, a multiline replacement is used
/// verbatim, and a code replacement is handed out to be executed.
pub open spec fn spec_match_action(trigger: Seq<char>, rep: ReplacementV) -> ActionV {
    match rep {
        ReplacementV::Simple(t) => ActionV::Replace {
            trigger: trigger,
            text: spec_propagate_case(trigger, t),
        },
        ReplacementV::Multiline(t) => ActionV::Replace { trigger: trigger, text: t },
        ReplacementV::Code { language, content } => ActionV::RunCode {
            trigger: trigger,
            language: language,
            content: content,
        },
    }
}

/// The whole key-down dispatch, after the idle reset has been applied and
/// the keystroke time recorded.
pub open spec fn spec_step_down(s: EngineV, code: KeyCode, now_ms: u64) -> (EngineV, Option<
    ActionV,
>) {
    match code {
        KeyCode::Escape => (EngineV { killswitch: true, ..s }, None),
        KeyCode::Shift => {
            let (fired, remembered) = spec_gesture_press(s.last_shift_time_ms, now_ms);
            if fired && !s.overlay_visible {
                (
                    EngineV {
                        shift_pressed: true,
                        last_shift_time_ms: remembered,
                        overlay_visible: true,
                        ..s
                    },
                    Some(ActionV::ShowOverlay),
                )
            } else {
                (
                    EngineV { shift_pressed: true, last_shift_time_ms: remembered, ..s },
                    None,
                )
            }
        },
        KeyCode::Control => (EngineV { ctrl_pressed: true, ..s }, None),
        KeyCode::Alt => (EngineV { alt_pressed: true, ..s }, None),
        KeyCode::CapsLock => (EngineV { caps_lock_on: !s.caps_lock_on, ..s }, None),
        KeyCode::Backspace => {
            if s.overlay_visible {
                (s, None)
            } else if s.buffer.len() > 0 {
                (EngineV { buffer: s.buffer.drop_last(), ..s }, None)
            } else {
                (s, None)
            }
        },
        KeyCode::Char(c) => {
            if s.overlay_visible {
                (s, None)
            } else if s.ctrl_pressed && (c == 'v' || c == 'V') {
                (EngineV { buffer: Seq::<char>::empty(), ..s }, None)
            } else {
                let b2 = spec_push(s.buffer, c);
                match spec_find_match(s.config.rules, b2) {
                    Some((i, j)) => {
                        let trigger = s.config.rules[i].triggers[j];
                        (
                            EngineV { buffer: Seq::<char>::empty(), ..s },
                            Some(spec_match_action(trigger, s.config.rules[i].replacement)),
                        )
                    },
                    None => (EngineV { buffer: b2, ..s }, None),
                }
            }
        },
        _ => (s, None),
    }
}

/// The whole key-up dispatch.
pub open spec fn spec_step_up(s: EngineV, code: KeyCode) -> (EngineV, Option<ActionV>) {
    match code {
        KeyCode::Shift => (EngineV { shift_pressed: false, ..s }, None),
        KeyCode::Control => (EngineV { ctrl_pressed: false, ..s }, None),
        KeyCode::Alt => (EngineV { alt_pressed: false, ..s }, None),
        KeyCode::Escape => {
            if s.overlay_visible {
                (
                    EngineV { overlay_visible: false, killswitch: false, ..s },
                    Some(ActionV::HideOverlay),
                )
            } else {
                (EngineV { killswitch: false, ..s }, None)
            }
        },
        _ => (s, None),
    }
}

/// One step of the engine on one key event at one instant: on a key-down
/// the buffer is cleared first when the idle gap expired and the keystroke
/// time is recorded, then the key is dispatched.
pub open spec fn spec_step(s: EngineV, event: KeyEvent, now_ms: u64) -> (EngineV, Option<
    ActionV,
>) {
    match event {
        KeyEvent::KeyDown(code) => {
            let cleared = if idle_expired(s.last_key_time_ms, now_ms) {
                Seq::<char>::empty()
            } else {
                s.buffer
            };
            let s1 = EngineV { buffer: cleared, last_key_time_ms: now_ms, ..s };
            spec_step_down(s1, code, now_ms)
        },
        KeyEvent::KeyUp(code) => spec_step_up(s, code),
    }
}

/// Installing a configuration replaces the snapshot wholesale and touches
/// nothing else — in particular not the buffer.
pub open spec fn spec_install_config(s: EngineV, c: ConfigV) -> EngineV {
    EngineV { config: c, ..s }
}

impl EngineState {
    /// The buffer respects its capacity and every rule is well formed.
    pub open spec fn wf(&self) -> bool {
        self.buffer.wf() && self.config.wf()
    }

    /// A fresh engine: the given configuration, an empty buffer, no
    /// modifier held, killswitch off, overlay hidden, no press remembered.
    pub fn new(config: TextraConfig) -> (r: EngineState)
        requires
            config.wf(),
        ensures
            r@.config == config@,
            r@.buffer == Seq::<char>::empty(),
            r@.last_key_time_ms == 0,
            !r@.shift_pressed && !r@.ctrl_pressed && !r@.alt_pressed && !r@.caps_lock_on,
            !r@.killswitch && !r@.overlay_visible,
            r@.last_shift_time_ms is None,
            r.wf(),
    {
        EngineState {
            config,
            buffer: RollingBuffer::new(),
            last_key_time_ms: 0,
            shift_pressed: false,
            ctrl_pressed: false,
            alt_pressed: false,
            caps_lock_on: false,
            killswitch: false,
            overlay_visible: false,
            last_shift_time_ms: None,
        }
    }

    /// Swap in a freshly parsed configuration. The old snapshot is dropped
    /// wholesale; the buffer and every flag stay untouched.
    pub fn update_config(&mut self, new_config: TextraConfig)
        requires
            old(self).wf(),
            new_config.wf(),
        ensures
            final(self)@ == spec_install_config(old(self)@, new_config@),
            final(self).wf(),
    {
        self.config = new_config;
    }

    /// Consume one key event at instant `now_ms` and decide the action.
    pub fn handle_key_event(&mut self, event: KeyEvent, now_ms: u64) -> (r: Option<Action>)
        requires
            old(self).wf(),
        ensures
            final(self).wf(),
            (final(self)@, opt_action_view(r)) == spec_step(old(self)@, event, now_ms),
    {
        match event {
            KeyEvent::KeyDown(code) => {
                if now_ms > self.last_key_time_ms
                    && now_ms - self.last_key_time_ms > crate::IDLE_THRESHOLD_MS {
                    self.buffer.clear();
                }
                self.last_key_time_ms = now_ms;
                self.handle_key_down(code, now_ms)
            },
            KeyEvent::KeyUp(code) => self.handle_key_up(code),
        }
    }

    fn handle_key_down(&mut self, code: KeyCode, now_ms: u64) -> (r: Option<Action>)
        requires
            old(self).wf(),
        ensures
            final(self).wf(),
            (final(self)@, opt_action_view(r)) == spec_step_down(old(self)@, code, now_ms),
    {
        match code {
            KeyCode::Escape => {
                self.killswitch = true;
                None
            },
            KeyCode::Shift => {
                self.shift_pressed = true;
                let mut fired = false;
                match self.last_shift_time_ms {
                    Some(p) => {
                        if p <= now_ms && now_ms - p < crate::GESTURE_WINDOW_MS {
                            self.last_shift_time_ms = None;
                            fired = true;
                        } else {
                            self.last_shift_time_ms = Some(now_ms);
                        }
                    },
                    None => {
                        self.last_shift_time_ms = Some(now_ms);
                    },
                }
                if fired && !self.overlay_visible {
                    self.overlay_visible = true;
                    Some(Action::ShowOverlay)
                } else {
                    None
                }
            },
            KeyCode::Control => {
                self.ctrl_pressed = true;
                None
            },
            KeyCode::Alt => {
                self.alt_pressed = true;
                None
            },
            KeyCode::CapsLock => {
                self.caps_lock_on = !self.caps_lock_on;
                None
            },
            KeyCode::Backspace => {
                if !self.overlay_visible {
                    self.buffer.pop_back();
                }
                None
            },
            KeyCode::Char(c) => {
                if self.overlay_visible {
                    return None;
                }
                if self.ctrl_pressed && (c == 'v' || c == 'V') {
                    self.buffer.clear();
                    return None;
                }
                self.buffer.push(c);
                match find_match(&self.config, &self.buffer) {
                    Some((i, j)) => {
                        let trigger = self.config.rules[i].triggers[j].clone();
                        let action = match &self.config.rules[i].replacement {
                            Replacement::Simple(t) => {
                                let text = propagate_case(trigger.as_str(), t.as_str());
                                Action::Replace { trigger, text }
                            },
                            Replacement::Multiline(t) => Action::Replace {
                                trigger,
                                text: t.clone(),
                            },
                            Replacement::Code { language, content } => Action::RunCode {
                                trigger,
                                language: language.clone(),
                                content: content.clone(),
                            },
                        };
                        self.buffer.clear();
                        Some(action)
                    },
                    None => None,
                }
            },
            _ => None,
        }
    }

    fn handle_key_up(&mut self, code: KeyCode) -> (r: Option<Action>)
        requires
            old(self).wf(),
        ensures
            final(self).wf(),
            (final(self)@, opt_action_view(r)) == spec_step_up(old(self)@, code),
    {
        match code {
            KeyCode::Shift => {
                self.shift_pressed = false;
                None
            },
            KeyCode::Control => {
                self.ctrl_pressed = false;
                None
            },
            KeyCode::Alt => {
                self.alt_pressed = false;
                None
            },
            KeyCode::Escape => {
                self.killswitch = false;
                if self.overlay_visible {
                    self.overlay_visible = false;
                    Some(Action::HideOverlay)
                } else {
                    None
                }
            },
            _ => None,
        }
    }
}

/// The text of a flag in the status report.
pub open spec fn spec_bool_text(b: bool) -> Seq<char> {
    if b {
        "true"@
    } else {
        "false"@
    }
}

/// The status report: the buffer and each modifier flag, one per line.
pub open spec fn spec_status_text(s: EngineV) -> Seq<char> {
    "Buffer: "@ + s.buffer + "\nCtrl: "@ + spec_bool_text(s.ctrl_pressed) + "\nShift: "@
        + spec_bool_text(s.shift_pressed) + "\nAlt: "@ + spec_bool_text(s.alt_pressed)
        + "\nCaps Lock: "@ + spec_bool_text(s.caps_lock_on)
}

fn bool_text(b: bool) -> (r: &'static str)
    ensures
        r@ == spec_bool_text(b),
{
    if b {
        "true"
    } else {
        "false"
    }
}

impl EngineState {
    pub fn get_shift_pressed(&self) -> (r: bool)
        ensures
            r == self.shift_pressed,
    {
        self.shift_pressed
    }

    pub fn get_ctrl_pressed(&self) -> (r: bool)
        ensures
            r == self.ctrl_pressed,
    {
        self.ctrl_pressed
    }

    pub fn get_alt_pressed(&self) -> (r: bool)
        ensures
            r == self.alt_pressed,
    {
        self.alt_pressed
    }

    pub fn get_caps_lock_on(&self) -> (r: bool)
        ensures
            r == self.caps_lock_on,
    {
        self.caps_lock_on
    }

    pub fn get_killswitch(&self) -> (r: bool)
        ensures
            r == self.killswitch,
    {
        self.killswitch
    }

    /// Describe the buffer and the modifier flags, one per line.
    pub fn get_current_status(&self) -> (r: String)
        ensures
            r@ == spec_status_text(self@),
    {
        let mut s = String::from_str("Buffer: ");
        let buf = crate::text::chars_to_string(&self.buffer.contents());
        s.append(buf.as_str());
        s.append("\nCtrl: ");
        s.append(bool_text(self.ctrl_pressed));
        s.append("\nShift: ");
        s.append(bool_text(self.shift_pressed));
        s.append("\nAlt: ");
        s.append(bool_text(self.alt_pressed));
        s.append("\nCaps Lock: ");
        s.append(bool_text(self.caps_lock_on));
        s
    }
}

/// Reloading a configuration is idempotent: installing the same parsed
/// content twice leaves the engine exactly as installing it once does, and
/// an install never touches the buffer.
pub proof fn lemma_reload_idempotent(s: EngineV, c: ConfigV)
    ensures
        spec_install_config(spec_install_config(s, c), c) == spec_install_config(s, c),
        spec_install_config(s, c).buffer == s.buffer,
{
}

/// A fired match consumes the trigger from the buffer: whenever a typed
/// character yields a replacement or a code-replacement request, the
/// buffer afterwards is empty — in particular it no longer ends with the
/// trigger.
pub proof fn lemma_match_clears_buffer(s: EngineV, c: char, now_ms: u64)
    ensures
        ({
            let (s2, a) = spec_step(s, KeyEvent::KeyDown(KeyCode::Char(c)), now_ms);
            (a matches Some(ActionV::Replace { .. }) || a matches Some(
                ActionV::RunCode { .. },
            )) ==> s2.buffer == Seq::<char>::empty()
        }),
{
}

/// Characters separated by more than the idle threshold never combine: a
/// key-down arriving after an expired idle gap steps exactly as it would
/// from a state whose buffer was already empty, so nothing typed before
/// the gap can contribute to a trigger match.
pub proof fn lemma_idle_reset(s: EngineV, code: KeyCode, now_ms: u64)
    requires
        idle_expired(s.last_key_time_ms, now_ms),
    ensures
        spec_step(s, KeyEvent::KeyDown(code), now_ms)
            == spec_step(
                EngineV { buffer: Seq::<char>::empty(), ..s },
                KeyEvent::KeyDown(code),
                now_ms,
            ),
{
}

} // verus!
