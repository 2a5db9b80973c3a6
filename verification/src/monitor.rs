//! Health monitoring of the keyboard layer: the status decision over
//! collected metrics and error patterns, and the backoff schedule for
//! retried hook operations. The traits describe what a platform keyboard
//! backend implements.

use vstd::prelude::*;
use crate::errors::{spec_decimal, u32_to_decimal, KeyboardError};
use crate::keys::KeyModifiers;

verus! {

/// Mathematical model of a health status.
pub ghost enum HealthStatusV {
    Healthy,
    Degraded(Seq<char>),
    Unhealthy(Seq<char>),
}

/// Health of the keyboard monitoring and input systems.
#[derive(Debug, Clone, PartialEq)]
pub enum HealthStatus {
    /// Functioning normally.
    Healthy,
    /// Operating, but with potential issues.
    Degraded(String),
    /// Not functioning properly.
    Unhealthy(String),
}

impl View for HealthStatus {
    type V = HealthStatusV;

    open spec fn view(&self) -> HealthStatusV {
        match self {
            HealthStatus::Healthy => HealthStatusV::Healthy,
            HealthStatus::Degraded(m) => HealthStatusV::Degraded(m@),
            HealthStatus::Unhealthy(m) => HealthStatusV::Unhealthy(m@),
        }
    }
}

/// A recurring failure of one kind.
#[derive(Debug, Clone, PartialEq)]
pub struct ErrorPattern {
    pub error_type: String,
    pub frequency: u32,
    pub last_occurrence_ms: u64,
    pub consecutive_count: u32,
}

/// Counters a keyboard backend collects while it runs.
#[derive(Debug, Clone, PartialEq)]
pub struct HealthMetrics {
    pub error_count: u32,
    pub last_error_time_ms: Option<u64>,
    pub consecutive_failures: u32,
    pub uptime_ms: u64,
}

/// What a platform backend implements to watch the keystroke stream.
pub trait KeyboardMonitor {
    /// Start monitoring keyboard events.
    fn start(&mut self) -> Result<(), KeyboardError>;

    /// Stop monitoring keyboard events.
    fn stop(&mut self) -> Result<(), KeyboardError>;

    /// Is monitoring currently active?
    fn is_running(&self) -> bool;

    /// Judge the health of the monitoring system.
    fn health_check(&self) -> Result<HealthStatus, KeyboardError>;
}

/// What a platform backend implements to synthesize input.
pub trait KeyboardInput {
    /// Delete this many characters, one backspace at a time.
    fn delete_chars(&self, count: usize, delay_ms: u64) -> Result<(), KeyboardError>;

    /// Type the text under the given modifier state.
    fn type_text(&self, text: &str, modifiers: KeyModifiers, delay_ms: u64) -> Result<
        (),
        KeyboardError,
    >;
}

/// The health decision over the backend's state: not running is unhealthy;
/// a missing hook, an error pattern with more than two consecutive
/// occurrences, or more than five recorded errors degrade the status;
/// anything else is healthy.
pub open spec fn spec_health_status(
    running: bool,
    hook_installed: bool,
    metrics: HealthMetrics,
    patterns: Seq<ErrorPattern>,
) -> HealthStatusV {
    if !running {
        HealthStatusV::Unhealthy("Keyboard monitoring is not running"@)
    } else if !hook_installed {
        HealthStatusV::Degraded("Keyboard hook is not properly initialized"@)
    } else if patterns.len() > 0 && patterns[0].consecutive_count > 2 {
        HealthStatusV::Degraded(
            "Multiple consecutive errors: "@ + patterns[0].error_type@ + " ("@
                + spec_decimal(patterns[0].consecutive_count as int) + ")"@,
        )
    } else if metrics.error_count > 5 {
        HealthStatusV::Degraded(
            "High error frequency: "@ + spec_decimal(metrics.error_count as int) + " errors"@,
        )
    } else {
        HealthStatusV::Healthy
    }
}

/// Decide the health status from what the backend collected.
pub fn health_status(
    running: bool,
    hook_installed: bool,
    metrics: &HealthMetrics,
    patterns: &Vec<ErrorPattern>,
) -> (r: HealthStatus)
    ensures
        r@ == spec_health_status(running, hook_installed, *metrics, patterns@),
{
    if !running {
        HealthStatus::Unhealthy(String::from_str("Keyboard monitoring is not running"))
    } else if !hook_installed {
        HealthStatus::Degraded(String::from_str("Keyboard hook is not properly initialized"))
    } else if patterns.len() > 0 && patterns[0].consecutive_count > 2 {
        let mut s = String::from_str("Multiple consecutive errors: ");
        s.append(patterns[0].error_type.as_str());
        s.append(" (");
        let num = u32_to_decimal(patterns[0].consecutive_count);
        s.append(num.as_str());
        s.append(")");
        HealthStatus::Degraded(s)
    } else if metrics.error_count > 5 {
        let mut s = String::from_str("High error frequency: ");
        let num = u32_to_decimal(metrics.error_count);
        s.append(num.as_str());
        s.append(" errors");
        HealthStatus::Degraded(s)
    } else {
        HealthStatus::Healthy
    }
}

/// Powers of two.
pub open spec fn spec_pow2(k: nat) -> int
    decreases k,
{
    if k == 0 {
        1
    } else {
        2 * spec_pow2((k - 1) as nat)
    }
}

proof fn lemma_pow2_monotone(a: nat, b: nat)
    requires
        a <= b,
    ensures
        spec_pow2(a) <= spec_pow2(b),
        spec_pow2(a) >= 1,
    decreases b,
{
    if b > 0 {
        if a == b {
            lemma_pow2_monotone((a - 1) as nat, (b - 1) as nat);
        } else {
            lemma_pow2_monotone(a, (b - 1) as nat);
        }
    }
}

/// The delay before retry number `attempt` of a failed hook operation:
/// one hundred milliseconds, doubled for each earlier attempt.
pub fn backoff_delay_ms(attempt: u32) -> (r: u64)
    requires
        1 <= attempt <= 32,
    ensures
        r == 100 * spec_pow2((attempt - 1) as nat),
{
    let mut acc: u64 = 1;
    let mut k: u32 = 0;
    while k < attempt - 1
        invariant
            k <= attempt - 1,
            attempt <= 32,
            acc == spec_pow2(k as nat),
        decreases attempt - 1 - k,
    {
        proof {
            lemma_pow2_monotone(k as nat, 31);
            reveal_with_fuel(spec_pow2, 33);
            assert(spec_pow2(31) == 0x80000000);
        }
        acc = acc * 2;
        k += 1;
    }
    proof {
        lemma_pow2_monotone((attempt - 1) as nat, 31);
        reveal_with_fuel(spec_pow2, 33);
        assert(spec_pow2(31) == 0x80000000);
    }
    100 * acc
}

} // verus!
