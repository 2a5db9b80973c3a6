//! The double-modifier gesture: a small timer-based state machine that
//! fires when the same modifier key is pressed twice within the gesture
//! window.

use vstd::prelude::*;
use crate::GESTURE_WINDOW_MS;

verus! {

/// One press step: a press within the window of a remembered press fires
/// and forgets the timestamp (so a third press starts a fresh window); any
/// other press is remembered as the new first press. The result is the pair
/// (fired, remembered timestamp afterwards).
pub open spec fn spec_gesture_press(last: Option<u64>, now: u64) -> (bool, Option<u64>) {
    match last {
        Some(p) => if p <= now && now - p < GESTURE_WINDOW_MS {
            (true, None)
        } else {
            (false, Some(now))
        },
        None => (false, Some(now)),
    }
}

/// Per-modifier two-state machine: idle, or armed with the timestamp of the
/// first press. A stale timestamp is simply overwritten by the next press.
pub struct GestureDetector {
    last_press_ms: Option<u64>,
}

impl View for GestureDetector {
    type V = Option<u64>;

    closed spec fn view(&self) -> Option<u64> {
        self.last_press_ms
    }
}

impl GestureDetector {
    pub fn new() -> (r: GestureDetector)
        ensures
            r@ is None,
    {
        GestureDetector { last_press_ms: None }
    }

    /// Feed one down-event of the watched modifier; returns whether the
    /// gesture fired.
    pub fn on_press(&mut self, now_ms: u64) -> (fired: bool)
        ensures
            (fired, final(self)@) == spec_gesture_press(old(self)@, now_ms),
    {
        match self.last_press_ms {
            Some(p) => {
                if p <= now_ms && now_ms - p < GESTURE_WINDOW_MS {
                    self.last_press_ms = None;
                    true
                } else {
                    self.last_press_ms = Some(now_ms);
                    false
                }
            },
            None => {
                self.last_press_ms = Some(now_ms);
                false
            },
        }
    }
}

/// Two presses within the gesture window fire exactly once, and a third
/// press inside the window starts a fresh window instead of firing again:
/// of the three presses, only the second fires.
pub proof fn lemma_double_press_fires_once(t1: u64, t2: u64, t3: u64)
    requires
        t1 <= t2 && t2 - t1 < GESTURE_WINDOW_MS,
        t2 <= t3 && t3 - t2 < GESTURE_WINDOW_MS,
    ensures
        ({
            let (f1, s1) = spec_gesture_press(None, t1);
            let (f2, s2) = spec_gesture_press(s1, t2);
            let (f3, s3) = spec_gesture_press(s2, t3);
            !f1 && f2 && !f3 && s3 == Some(t3)
        }),
{
}

} // verus!
