//! Real-time trigger-expansion engine for a desktop text-expansion utility.
//!
//! The library owns the pure, verified core: the configuration model and its
//! textual syntax, the rolling text buffer, trigger matching with case
//! propagation, the replacement-synthesis plan, the echo-suppression gate, the
//! double-modifier gesture state machine, and the line-oriented message
//! protocol that coordinates the capture process with the overlay process.
//! Keystroke capture, synthetic input injection, file watching and process
//! execution are performed by the surrounding daemon, which feeds plain
//! values into these functions and carries their decisions out.

use vstd::prelude::*;

pub mod buffer;
pub mod capture;
pub mod config;
pub mod engine;
pub mod errors;
pub mod gesture;
pub mod ipc;
pub mod keys;
pub mod matching;
pub mod monitor;
pub mod parser;
pub mod replacement;
pub mod synth;
pub mod text;
pub mod textscan;
pub mod view;

verus! {

/// Capacity of the rolling text buffer: the number of most recently typed
/// characters kept for suffix matching.
pub const MAX_TEXT_LENGTH: usize = 100;

/// Gap between keystrokes (milliseconds) beyond which the rolling buffer is
/// cleared before the next character is processed.
pub const IDLE_THRESHOLD_MS: u64 = 1000;

/// Window (milliseconds) within which two presses of the same modifier count
/// as a double-press gesture.
pub const GESTURE_WINDOW_MS: u64 = 500;

/// Delay (milliseconds) between synthetic key events during a replacement.
pub const KEY_DELAY: u64 = 2;

/// Name of the on-disk configuration file.
pub const CONFIG_FILE_NAME: &'static str = "config.textra";

/// Name of the installed service.
pub const SERVICE_NAME: &'static str = "textra";

/// Well-known channel name on which the daemon process listens.
pub const DAEMON_PIPE_NAME: &'static str = r"\\.\pipe\textra-daemon";

/// Well-known channel name on which the overlay process listens.
pub const OVERLAY_PIPE_NAME: &'static str = r"\\.\pipe\textra-overlay";

} // verus!
