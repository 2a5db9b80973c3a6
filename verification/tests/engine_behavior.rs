//! The trigger engine: matching order, idle reset, echo suppression, the
//! double-shift gesture, the killswitch, and case propagation.

use textra::capture::{deliver_event, key_code_from_vk, resolve_typed_char, set_generating_input,
    shifted_symbol, EchoGate};
use textra::engine::{Action, EngineState};
use textra::gesture::GestureDetector;
use textra::keys::{KeyCode, KeyEvent};
use textra::parser::parse_textra_config;
use textra::replacement::{code_replacement_text, propagate_case, substitute_datetime};
use textra::synth::{backspace_taps, expand_taps, plan_replacement, KeyTap, SyntheticEvent};

fn engine_with(config_text: &str) -> EngineState {
    let config = parse_textra_config(config_text).unwrap();
    EngineState::new(config)
}

fn type_chars(engine: &mut EngineState, chars: &str, start_ms: u64) -> Vec<Option<Action>> {
    let mut out = Vec::new();
    let mut t = start_ms;
    for c in chars.chars() {
        out.push(engine.handle_key_event(KeyEvent::KeyDown(KeyCode::Char(c)), t));
        t += 10;
    }
    out
}

#[test]
fn test_propagate_case() {
    assert_eq!(propagate_case("test", "replacement"), "replacement");
    assert_eq!(propagate_case("Test", "replacement"), "Replacement");
    assert_eq!(propagate_case("TEST", "replacement"), "REPLACEMENT");
    assert_eq!(propagate_case("tEsT", "replacement"), "replacement");
    assert_eq!(propagate_case("", "replacement"), "replacement");
    assert_eq!(propagate_case("test", ""), "");
}

#[test]
fn test_propagate_case_spec_examples() {
    assert_eq!(propagate_case("BTW", "by the way"), "BY THE WAY");
    assert_eq!(propagate_case("Btw", "by the way"), "By the way");
    assert_eq!(propagate_case("btw", "by the way"), "by the way");
}

#[test]
fn test_end_to_end_btw() {
    let mut engine = engine_with("btw => by the way\n");
    let actions = type_chars(&mut engine, "btw", 10);
    assert_eq!(actions[0], None);
    assert_eq!(actions[1], None);
    assert_eq!(
        actions[2],
        Some(Action::Replace {
            trigger: "btw".to_string(),
            text: "by the way".to_string()
        })
    );
    // The buffer no longer ends with the trigger.
    let status = engine.get_current_status();
    assert!(status.starts_with("Buffer: \n"));
}

#[test]
fn test_end_to_end_email_deletes_six() {
    let mut engine = engine_with(":email => example@example.com\n");
    let actions = type_chars(&mut engine, "hi :email", 10);
    let last = actions.last().unwrap().clone();
    match last {
        Some(Action::Replace { trigger, text }) => {
            assert_eq!(trigger, ":email");
            assert_eq!(text, "example@example.com");
            let plan = plan_replacement(false, trigger.chars().count(), &text).unwrap();
            assert_eq!(plan.backspaces, 6);
            assert_eq!(plan.chars.iter().collect::<String>(), "example@example.com");
        }
        other => panic!("expected a replacement, got {:?}", other),
    }
}

#[test]
fn test_match_uses_declaration_order_not_length() {
    // The first rule in declaration order wins even though a later rule
    // holds a longer matching trigger.
    let mut engine = engine_with("b => short\nab => long\n");
    let actions = type_chars(&mut engine, "ab", 10);
    assert_eq!(
        actions[1],
        Some(Action::Replace {
            trigger: "b".to_string(),
            text: "short".to_string()
        })
    );
}

#[test]
fn test_first_trigger_in_list_order_wins() {
    let mut engine = engine_with("xy | y => first\n");
    let actions = type_chars(&mut engine, "xy", 10);
    assert_eq!(
        actions[1],
        Some(Action::Replace {
            trigger: "xy".to_string(),
            text: "first".to_string()
        })
    );
}

#[test]
fn test_idle_reset_prevents_combining() {
    let mut engine = engine_with("btw => by the way\n");
    assert_eq!(
        engine.handle_key_event(KeyEvent::KeyDown(KeyCode::Char('b')), 0),
        None
    );
    // More than the idle threshold later: the earlier character must not
    // combine with the new ones into a trigger match.
    assert_eq!(
        engine.handle_key_event(KeyEvent::KeyDown(KeyCode::Char('t')), 2000),
        None
    );
    assert_eq!(
        engine.handle_key_event(KeyEvent::KeyDown(KeyCode::Char('w')), 2010),
        None
    );
}

#[test]
fn test_echo_gate_suppresses_events() {
    let mut engine = engine_with("btw => by the way\n");
    let mut gate = EchoGate::new();
    set_generating_input(&mut gate, true);
    // Synthetic echoes during a replacement reach the hook but never the
    // engine: the buffer stays unchanged.
    assert_eq!(
        deliver_event(&gate, &mut engine, KeyEvent::KeyDown(KeyCode::Char('b')), 10),
        None
    );
    assert_eq!(
        deliver_event(&gate, &mut engine, KeyEvent::KeyDown(KeyCode::Char('t')), 20),
        None
    );
    assert!(engine.get_current_status().starts_with("Buffer: \n"));
    set_generating_input(&mut gate, false);
    assert_eq!(
        deliver_event(&gate, &mut engine, KeyEvent::KeyDown(KeyCode::Char('b')), 30),
        None
    );
    assert!(engine.get_current_status().starts_with("Buffer: b\n"));
}

#[test]
fn test_double_shift_fires_once() {
    let mut detector = GestureDetector::new();
    assert!(!detector.on_press(0));
    assert!(detector.on_press(100));
    // The third press starts a fresh window instead of re-firing.
    assert!(!detector.on_press(200));
}

#[test]
fn test_double_shift_outside_window() {
    let mut detector = GestureDetector::new();
    assert!(!detector.on_press(0));
    assert!(!detector.on_press(600));
    assert!(detector.on_press(700));
}

#[test]
fn test_double_shift_shows_overlay_once() {
    let mut engine = engine_with("btw => by the way\n");
    assert_eq!(engine.handle_key_event(KeyEvent::KeyDown(KeyCode::Shift), 10), None);
    assert_eq!(
        engine.handle_key_event(KeyEvent::KeyDown(KeyCode::Shift), 110),
        Some(Action::ShowOverlay)
    );
    assert_eq!(engine.handle_key_event(KeyEvent::KeyDown(KeyCode::Shift), 210), None);
    // Escape released while the overlay is visible hides it.
    assert_eq!(
        engine.handle_key_event(KeyEvent::KeyUp(KeyCode::Escape), 300),
        Some(Action::HideOverlay)
    );
}

#[test]
fn test_killswitch_plans_zero_events() {
    let mut engine = engine_with("btw => by the way\n");
    engine.handle_key_event(KeyEvent::KeyDown(KeyCode::Escape), 5);
    assert!(engine.get_killswitch());
    let actions = type_chars(&mut engine, "btw", 10);
    if let Some(Action::Replace { trigger, text }) = actions[2].clone() {
        // With the killswitch held, the synthesizer performs nothing.
        let plan = plan_replacement(engine.get_killswitch(), trigger.chars().count(), &text);
        assert!(plan.is_none());
    } else {
        panic!("expected a replacement decision");
    }
    engine.handle_key_event(KeyEvent::KeyUp(KeyCode::Escape), 50);
    assert!(!engine.get_killswitch());
}

#[test]
fn test_reload_same_config_is_idempotent() {
    let mut engine = engine_with("btw => by the way\n");
    type_chars(&mut engine, "bt", 10);
    let config = parse_textra_config("btw => by the way\n").unwrap();
    engine.update_config(config.clone());
    engine.update_config(config);
    // The buffer survived both reloads: the pending "bt" still completes.
    let action = engine.handle_key_event(KeyEvent::KeyDown(KeyCode::Char('w')), 30);
    assert_eq!(
        action,
        Some(Action::Replace {
            trigger: "btw".to_string(),
            text: "by the way".to_string()
        })
    );
}

#[test]
fn test_backspace_pops_buffer() {
    let mut engine = engine_with("btw => by the way\n");
    type_chars(&mut engine, "bt", 10);
    engine.handle_key_event(KeyEvent::KeyDown(KeyCode::Backspace), 30);
    assert!(engine.get_current_status().starts_with("Buffer: b\n"));
}

#[test]
fn test_ctrl_v_clears_buffer() {
    let mut engine = engine_with("btw => by the way\n");
    type_chars(&mut engine, "bt", 10);
    engine.handle_key_event(KeyEvent::KeyDown(KeyCode::Control), 30);
    engine.handle_key_event(KeyEvent::KeyDown(KeyCode::Char('v')), 40);
    assert!(engine.get_current_status().starts_with("Buffer: \n"));
}

#[test]
fn test_buffer_capacity_evicts_front() {
    let mut engine = engine_with("zzz => never\n");
    for i in 0..105u64 {
        engine.handle_key_event(KeyEvent::KeyDown(KeyCode::Char('a')), 10 + i);
    }
    let status = engine.get_current_status();
    let buffer_line = status.lines().next().unwrap();
    assert_eq!(buffer_line.len(), "Buffer: ".len() + 100);
}

#[test]
fn test_multiline_replacement_is_verbatim() {
    let mut engine = engine_with(":t => `Two\nLines`\n");
    let actions = type_chars(&mut engine, ":t", 10);
    assert_eq!(
        actions[1],
        Some(Action::Replace {
            trigger: ":t".to_string(),
            text: "Two\nLines".to_string()
        })
    );
}

#[test]
fn test_code_rule_hands_out_the_program() {
    let mut engine = engine_with(":py => ```python\nprint(1)\n```\n");
    let actions = type_chars(&mut engine, ":py", 10);
    assert_eq!(
        actions[2],
        Some(Action::RunCode {
            trigger: ":py".to_string(),
            language: "python".to_string(),
            content: "print(1)\n".to_string()
        })
    );
    assert_eq!(code_replacement_text(Ok("1".to_string())), "1");
    assert_eq!(
        code_replacement_text(Err("boom".to_string())),
        "Error executing code: boom"
    );
}

#[test]
fn test_overlay_swallows_typing() {
    let mut engine = engine_with("btw => by the way\n");
    engine.handle_key_event(KeyEvent::KeyDown(KeyCode::Shift), 10);
    engine.handle_key_event(KeyEvent::KeyDown(KeyCode::Shift), 110);
    let actions = type_chars(&mut engine, "btw", 200);
    assert_eq!(actions, vec![None, None, None]);
    assert!(engine.get_current_status().starts_with("Buffer: \n"));
}

#[test]
fn test_substitute_datetime() {
    assert_eq!(
        substitute_datetime("Date: {{date}} at {{time}}", "2024-05-06", "07:08:09"),
        "Date: 2024-05-06 at 07:08:09"
    );
    assert_eq!(substitute_datetime("Static text", "d", "t"), "Static text");
}

#[test]
fn test_key_translation() {
    assert_eq!(key_code_from_vk(0x10, None), KeyCode::Shift);
    assert_eq!(key_code_from_vk(0xA1, None), KeyCode::Shift);
    assert_eq!(key_code_from_vk(0x1B, None), KeyCode::Escape);
    assert_eq!(key_code_from_vk(0x08, None), KeyCode::Backspace);
    assert_eq!(key_code_from_vk(0x41, Some('a')), KeyCode::Char('a'));
    assert_eq!(key_code_from_vk(0x7B, None), KeyCode::Other(0x7B));
    assert_eq!(shifted_symbol('1'), Some('!'));
    assert_eq!(shifted_symbol(';'), Some(':'));
    assert_eq!(shifted_symbol('a'), None);
    assert_eq!(resolve_typed_char('1', true, false), '!');
    assert_eq!(resolve_typed_char('1', false, false), '1');
    assert_eq!(resolve_typed_char('a', true, false), 'a');
}

#[test]
fn test_expand_taps_order() {
    let taps = vec![KeyTap { modifiers: vec![0x10, 0x11], key: 0x41 }];
    let events = expand_taps(&taps);
    assert_eq!(
        events,
        vec![
            SyntheticEvent { vk: 0x10, down: true },
            SyntheticEvent { vk: 0x11, down: true },
            SyntheticEvent { vk: 0x41, down: true },
            SyntheticEvent { vk: 0x41, down: false },
            SyntheticEvent { vk: 0x11, down: false },
            SyntheticEvent { vk: 0x10, down: false },
        ]
    );
}

#[test]
fn test_backspace_taps() {
    let taps = backspace_taps(3);
    assert_eq!(taps.len(), 3);
    for tap in &taps {
        assert_eq!(tap.key, 8);
        assert!(tap.modifiers.is_empty());
    }
    let events = expand_taps(&taps);
    assert_eq!(events.len(), 6);
}
