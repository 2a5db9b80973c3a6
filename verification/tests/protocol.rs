//! The one-line message protocol, and the remaining small components:
//! decimal rendering, error messages, health decisions, the backoff
//! schedule, dynamic replacement, and the fallback overlay page.

use textra::config::{Replacement, TextraConfig, TextraRule};
use textra::errors::{u32_to_decimal, KeyboardError};
use textra::ipc::{encode_ipc_message, parse_ipc_message, IpcMessage};
use textra::monitor::{backoff_delay_ms, health_status, ErrorPattern, HealthMetrics, HealthStatus};
use textra::replacement::process_dynamic_replacement;
use textra::view::get_default_html;

fn round_trip(message: IpcMessage) {
    let line = encode_ipc_message(&message);
    assert!(!line.contains('\n'), "a frame must fit one line: {line}");
    assert_eq!(parse_ipc_message(&line), Some(message));
}

#[test]
fn test_ipc_unit_variants_round_trip() {
    round_trip(IpcMessage::ShiftShiftDetected);
    round_trip(IpcMessage::HideOverlay);
    round_trip(IpcMessage::ShowOverlay);
    round_trip(IpcMessage::ShutdownOverlay);
    round_trip(IpcMessage::UpdateConfig);
    round_trip(IpcMessage::StartDaemon);
    round_trip(IpcMessage::StopDaemon);
    round_trip(IpcMessage::StartOverlay);
    round_trip(IpcMessage::StopOverlay);
    round_trip(IpcMessage::StatusRequest);
}

#[test]
fn test_ipc_template_selected_round_trip() {
    round_trip(IpcMessage::TemplateSelected {
        text: "plain".to_string(),
    });
    round_trip(IpcMessage::TemplateSelected {
        text: "with \"quotes\", a \\ backslash,\nand a line break\t!".to_string(),
    });
    round_trip(IpcMessage::TemplateSelected { text: String::new() });
}

#[test]
fn test_ipc_status_response_round_trip() {
    for d in [false, true] {
        for o in [false, true] {
            for a in [false, true] {
                round_trip(IpcMessage::StatusResponse {
                    daemon_running: d,
                    overlay_running: o,
                    autostart_enabled: a,
                });
            }
        }
    }
}

#[test]
fn test_ipc_status_response_wire_form() {
    let line = encode_ipc_message(&IpcMessage::StatusResponse {
        daemon_running: true,
        overlay_running: false,
        autostart_enabled: true,
    });
    assert_eq!(
        line,
        "{\"StatusResponse\":{\"daemon_running\":true,\"overlay_running\":false,\"autostart_enabled\":true}}"
    );
}

#[test]
fn test_ipc_config_reloaded_round_trip() {
    let config = TextraConfig {
        metadata: vec![("version".to_string(), "1.0".to_string())],
        documentation: vec!["Docs.".to_string()],
        rules: vec![TextraRule {
            triggers: vec!["btw".to_string()],
            replacement: Replacement::Simple("by the way".to_string()),
            description: None,
            category: None,
        }],
        overlay: Default::default(),
    };
    let line = encode_ipc_message(&IpcMessage::ConfigReloaded { config: config.clone() });
    assert!(!line.contains('\n'));
    match parse_ipc_message(&line) {
        Some(IpcMessage::ConfigReloaded { config: back }) => {
            assert_eq!(back.metadata, config.metadata);
            assert_eq!(back.documentation, config.documentation);
            assert_eq!(back.rules, config.rules);
        }
        other => panic!("expected a configuration snapshot, got {:?}", other),
    }
}

#[test]
fn test_ipc_rejects_garbage() {
    assert_eq!(parse_ipc_message(""), None);
    assert_eq!(parse_ipc_message("\"NoSuchMessage\""), None);
    assert_eq!(parse_ipc_message("{\"TemplateSelected\":{\"text\":\"bad \\x\"}}"), None);
    assert_eq!(parse_ipc_message("hello"), None);
}

#[test]
fn test_decimal_rendering() {
    assert_eq!(u32_to_decimal(0), "0");
    assert_eq!(u32_to_decimal(7), "7");
    assert_eq!(u32_to_decimal(10), "10");
    assert_eq!(u32_to_decimal(12345), "12345");
    assert_eq!(u32_to_decimal(u32::MAX), "4294967295");
}

#[test]
fn test_keyboard_error_messages() {
    assert_eq!(
        KeyboardError::HookError("denied".to_string()).message(),
        "Failed to set keyboard hook: denied"
    );
    assert_eq!(
        KeyboardError::InputError("oops".to_string()).message(),
        "Input operation failed: oops"
    );
    assert_eq!(
        KeyboardError::SystemError("call".to_string()).message(),
        "System call failed: call"
    );
    assert_eq!(
        KeyboardError::RetryTimeout {
            attempts: 3,
            message: "still failing".to_string()
        }
        .message(),
        "Operation timed out after 3 attempts: still failing"
    );
}

fn quiet_metrics() -> HealthMetrics {
    HealthMetrics {
        error_count: 0,
        last_error_time_ms: None,
        consecutive_failures: 0,
        uptime_ms: 1000,
    }
}

#[test]
fn test_health_status_decision() {
    let metrics = quiet_metrics();
    assert_eq!(
        health_status(false, false, &metrics, &vec![]),
        HealthStatus::Unhealthy("Keyboard monitoring is not running".to_string())
    );
    assert_eq!(
        health_status(true, false, &metrics, &vec![]),
        HealthStatus::Degraded("Keyboard hook is not properly initialized".to_string())
    );
    assert_eq!(health_status(true, true, &metrics, &vec![]), HealthStatus::Healthy);
    let pattern = ErrorPattern {
        error_type: "InputError".to_string(),
        frequency: 4,
        last_occurrence_ms: 123,
        consecutive_count: 3,
    };
    assert_eq!(
        health_status(true, true, &metrics, &vec![pattern]),
        HealthStatus::Degraded("Multiple consecutive errors: InputError (3)".to_string())
    );
    let noisy = HealthMetrics { error_count: 6, ..quiet_metrics() };
    assert_eq!(
        health_status(true, true, &noisy, &vec![]),
        HealthStatus::Degraded("High error frequency: 6 errors".to_string())
    );
}

#[test]
fn test_backoff_schedule() {
    assert_eq!(backoff_delay_ms(1), 100);
    assert_eq!(backoff_delay_ms(2), 200);
    assert_eq!(backoff_delay_ms(3), 400);
}

#[test]
fn test_process_dynamic_replacement() {
    let date_regex = regex::Regex::new(r"\d{4}-\d{2}-\d{2}").unwrap();
    let time_regex = regex::Regex::new(r"\d{2}:\d{2}:\d{2}").unwrap();

    let replaced_date = process_dynamic_replacement("Date: {{date}}");
    assert!(date_regex.is_match(&replaced_date));
    assert!(replaced_date.starts_with("Date: "));

    let replaced_time = process_dynamic_replacement("Time: {{time}}");
    assert!(time_regex.is_match(&replaced_time));
    assert!(replaced_time.starts_with("Time: "));

    let replaced_both = process_dynamic_replacement("Now: {{date}} {{time}}");
    assert!(date_regex.is_match(&replaced_both));
    assert!(time_regex.is_match(&replaced_both));
    assert!(replaced_both.starts_with("Now: "));

    assert_eq!(process_dynamic_replacement("Static text"), "Static text");
}

#[test]
fn test_default_html_is_a_page() {
    let html = get_default_html();
    assert!(html.starts_with("<!DOCTYPE html>"));
    assert!(html.contains("Textra Templates"));
}
