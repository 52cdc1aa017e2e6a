use conductor_tools::ctl_audit::{
    config_body_check, config_save_precheck, mcp_client_line, resume_message, snapshot_generation, AuditRiskTier,
};
use conductor_tools::ctl_daemon::{reload_summary_lines, validate_summary_lines};
use conductor_tools::ctl_devices::{
    approve_message, current_device_lines, deny_message, device_list_lines, listener_lines, listener_row,
    listener_status, rotation_tag, ListenerInfo,
};
use conductor_tools::json::{JsonField, JsonNumber, JsonValue};
use conductor_tools::service::{start_wait_step, StartWait};
use conductor_tools::sign::{
    check_signing_inputs, remove_trusted_key, trusted_key_lines, TrustedKey,
};
use conductor_tools::simulator::{demo_steps, scenario_steps, velocity_test_steps, Scenario, SimStep};
use conductor_tools::skills::{invalid_entry_lines, valid_entry_lines, SkillSummary, SkillValidationError};
use conductor_tools::styled::{Span, Style};
use conductor_tools::validation_report::{
    profile_report_lines, schema_config_path, schema_findings_lines, schema_verdict_lines, Finding,
};

fn from_serde(v: &serde_json::Value) -> JsonValue {
    match v {
        serde_json::Value::Null => JsonValue::Null,
        serde_json::Value::Bool(b) => JsonValue::Bool(*b),
        serde_json::Value::Number(n) => JsonValue::Number(JsonNumber {
            as_u64: n.as_u64(),
            as_i64: n.as_i64(),
            as_f64_to_u64: n.as_f64().map(|f| f as u64),
            text: n.to_string(),
        }),
        serde_json::Value::String(s) => JsonValue::Str(s.clone()),
        serde_json::Value::Array(a) => JsonValue::Array(a.iter().map(from_serde).collect()),
        serde_json::Value::Object(m) => JsonValue::Object(
            m.iter()
                .map(|(k, v)| JsonField { key: k.clone(), value: from_serde(v) })
                .collect(),
        ),
    }
}

fn parse(text: &str) -> JsonValue {
    from_serde(&serde_json::from_str::<serde_json::Value>(text).unwrap())
}

fn line_text(l: &[Span]) -> String {
    l.iter().map(|s| s.text.as_str()).collect()
}

fn text(lines: &[Vec<Span>]) -> Vec<String> {
    lines.iter().map(|l| line_text(l)).collect()
}

#[test]
fn device_list_sections() {
    let data = parse(
        r#"{"midi_devices": [{"port_index": 2, "port_name": "Mikro", "connected": true}, {"port_name": "IAC"}],
            "hid_devices": []}"#,
    );
    let lines = device_list_lines(&data);
    assert_eq!(
        text(&lines),
        vec!["", "MIDI Devices:", "  [2] Mikro (connected)", "  [0] IAC", "", "HID Devices (Gamepads/Controllers):", "  No HID devices found", ""]
    );
    assert_eq!(lines[2][1].style, Style::Green);
    assert_eq!(text(&device_list_lines(&parse("{}"))), vec![""]);
    let hid = parse(r#"{"hid_devices": [{"index": 1, "name": "Pad", "uuid": "u-1"}]}"#);
    assert_eq!(text(&device_list_lines(&hid))[2], "  [1] Pad (UUID: u-1)");
}

#[test]
fn current_device_screen() {
    let dev = parse(r#"{"connected": false, "name": "Mikro", "port": 3, "last_event_at": 1000}"#);
    let lines = current_device_lines(&dev, 1090);
    assert_eq!(text(&lines), vec!["Status:     Disconnected", "Name:       Mikro", "Port:       3", "Last Event: 1m 30s ago", ""]);
    assert_eq!(lines[0][1].style, Style::Red);
    let lines = current_device_lines(&parse(r#"{"connected": true, "last_event_at": 5000}"#), 10);
    assert_eq!(text(&lines), vec!["Status:     Connected", "Last Event: 0s ago", ""]);
}

fn listener(alias: &str, loopback: bool, approved: bool, tampered: bool, amp: bool) -> ListenerInfo {
    ListenerInfo {
        alias: alias.to_string(),
        host: "10.0.0.2".to_string(),
        port: 9000,
        is_loopback: loopback,
        requires_amplification_ack: amp,
        approved,
        registry_tampered: tampered,
    }
}

#[test]
fn listener_states_in_priority_order() {
    assert_eq!(listener_status(true, true, false), ("loopback (auto-approved)", Style::Dimmed));
    assert_eq!(listener_status(false, true, true), ("REGISTRY TAMPERED — re-approve", Style::RedBold));
    assert_eq!(listener_status(false, false, true), ("approved", Style::Green));
    assert_eq!(listener_status(false, false, false), ("PROMPT REQUIRED", Style::Yellow));
}

#[test]
fn listener_rows() {
    let l = listener("osc-in", false, true, false, true);
    assert_eq!(line_text(&listener_row(&l, false)), format!("{:<20} approved", "osc-in"));
    assert_eq!(
        line_text(&listener_row(&l, true)),
        format!("{:<20} 10.0.0.2:{:<6} [approved]  (amplification ack required)", "osc-in", 9000)
    );
    assert_eq!(text(&listener_lines(&vec![], true)), vec!["No network listeners configured."]);
    assert_eq!(listener_lines(&vec![l, listener("b", true, false, false, false)], false).len(), 2);
    assert_eq!(
        line_text(&approve_message("osc-in", false, "10.0.0.2", 9000)),
        "✓ approved listener 'osc-in' (10.0.0.2:9000). The daemon applies it on next (re)bind."
    );
    assert_eq!(
        line_text(&approve_message("lo", true, "127.0.0.1", 1)),
        "✓ 'lo' is loopback — already auto-approved (no record needed)."
    );
    assert_eq!(line_text(&deny_message("x", true)), "✓ revoked approval for listener 'x'.");
    assert_eq!(line_text(&deny_message("x", false)), "No approval on file for listener 'x'.");
    assert_eq!(rotation_tag(None), ("ok".to_string(), Style::Green));
    assert_eq!(rotation_tag(Some("hard_expired")), ("hard_expired".to_string(), Style::RedBold));
    assert_eq!(rotation_tag(Some("soft_warn")), ("soft_warn".to_string(), Style::Yellow));
}

fn tk(key: &str, name: &str) -> TrustedKey {
    TrustedKey { public_key: key.to_string(), name: name.to_string(), email: "e@x".to_string(), added_at: "2025-01-01".to_string() }
}

#[test]
fn trust_remove_keeps_other_records_whole() {
    let keys = vec![tk("aa", "A"), tk("bb", "B"), tk("aa", "A2"), tk("cc", "C")];
    let kept = remove_trusted_key(keys, "aa").unwrap();
    let names: Vec<&str> = kept.iter().map(|k| k.name.as_str()).collect();
    assert_eq!(names, vec!["B", "C"]);
    assert_eq!(kept[0].email, "e@x");
    assert_eq!(kept[0].added_at, "2025-01-01");
    assert_eq!(
        remove_trusted_key(vec![tk("bb", "B")], "aa").err(),
        Some("Error: Key not found in trusted list".to_string())
    );
    assert_eq!(trusted_key_lines(&vec![]), vec!["No trusted keys configured"]);
    assert_eq!(trusted_key_lines(&vec!["k1".to_string(), "k2".to_string()]), vec!["Trusted keys (2):", "  k1", "  k2"]);
}

#[test]
fn signing_inputs_are_checked_in_order() {
    assert_eq!(check_signing_inputs(None, None, 1).unwrap_err(), "Error: --name is required");
    assert_eq!(check_signing_inputs(Some("a"), None, 32).unwrap_err(), "Error: --email is required");
    assert_eq!(
        check_signing_inputs(Some("a"), Some("b"), 31).unwrap_err(),
        "Error: Invalid private key size (expected 32 bytes, got 31)"
    );
    assert_eq!(check_signing_inputs(Some("a"), Some("b"), 32), Ok(()));
}

fn says(steps: &[SimStep]) -> Vec<&'static str> {
    steps
        .iter()
        .filter_map(|s| match s {
            SimStep::Say(t) => Some(*t),
            _ => None,
        })
        .collect()
}

#[test]
fn scenario_scripts() {
    let v = scenario_steps(Scenario::Velocity);
    assert_eq!(v.len(), 13);
    assert!(matches!(v[1], SimStep::NoteOn { note: 60, velocity: 30 }));
    assert!(matches!(v[9], SimStep::NoteOn { note: 60, velocity: 110 }));
    let c = scenario_steps(Scenario::Chord);
    assert!(matches!(c[1], SimStep::Chord { root: 60, third: 64, fifth: 67, velocity: 80, stagger_ms: 10, hold_ms: 500 }));
    let x = scenario_steps(Scenario::Complex);
    assert_eq!(x.len(), 27);
    assert!(matches!(x[21], SimStep::PitchBend { value: 12000 }));
    assert_eq!(says(&scenario_steps(Scenario::Timing)), vec![
        "Testing press durations: Short (100ms), Medium (500ms), Long (2500ms)",
        "✓ Timing scenario complete"
    ]);
    let d = demo_steps();
    assert_eq!(d.len(), 11);
    assert!(matches!(d[1], SimStep::VelocityRamp { note: 60, min_velocity: 20, max_velocity: 120, steps: 3 }));
    let t = velocity_test_steps(40);
    assert_eq!(t.len(), 13);
    assert!(matches!(t[5], SimStep::NoteOn { note: 40, velocity: 70 }));
}

#[test]
fn skill_listing_entries() {
    let s = SkillSummary {
        version: Some("1.2".to_string()),
        description: "Does things".to_string(),
        license: "MIT".to_string(),
        body_tokens: 420,
    };
    assert_eq!(text(&valid_entry_lines("alpha", &s, false)), vec!["  • alpha v1.2"]);
    assert_eq!(
        text(&valid_entry_lines("alpha", &s, true)),
        vec!["  • alpha v1.2", "      Does things", "      License: MIT | Tokens: ~420"]
    );
    let errs = vec![SkillValidationError::MissingRequiredField("name".to_string())];
    assert_eq!(
        text(&invalid_entry_lines("beta", &errs, true)),
        vec!["  • beta (invalid)", "      Missing required field: name"]
    );
    assert_eq!(invalid_entry_lines("beta", &errs, false).len(), 1);
}

fn f(p: &str, m: &str) -> Finding {
    Finding { path: p.to_string(), message: m.to_string() }
}

#[test]
fn validation_reports() {
    assert_eq!(text(&profile_report_lines(&vec![], &vec![])), vec!["✓ Profile config is valid"]);
    assert_eq!(
        text(&profile_report_lines(&vec![f("modes[0]", "empty name")], &vec![f("x", "unused")])),
        vec![
            "✗ Profile config has errors (1 error(s)):",
            "  ✗ modes[0]: empty name",
            "",
            "Warnings (1):",
            "  ! x: unused",
        ]
    );
    assert_eq!(
        text(&schema_findings_lines(&vec![f("a", "b"), f("c", "d")], &vec![])),
        vec!["Errors (2):", "  x a: b", "  x c: d"]
    );
    assert_eq!(text(&schema_findings_lines(&vec![], &vec![])), vec!["  No errors"]);
    assert_eq!(text(&schema_verdict_lines(0)), vec!["", "Config is valid"]);
    assert_eq!(text(&schema_verdict_lines(3)), vec!["", "Config has errors (3 errors)"]);
    assert_eq!(schema_config_path(Some("/c.toml"), Some("/home/a")), "/c.toml");
    assert_eq!(schema_config_path(None, Some("/home/a")), "/home/a/.conductor/config.toml");
    assert_eq!(schema_config_path(None, None), ".conductor/config.toml");
}

#[test]
fn reload_and_validate_summaries() {
    let d = parse(r#"{"reload_duration_ms": 12, "performance_grade": "A", "modes_loaded": 3, "mappings_loaded": 40}"#);
    let lines = reload_summary_lines(&d);
    assert_eq!(
        text(&lines),
        vec!["✓ Configuration reloaded successfully", "Duration:  12 ms (grade: A)", "Modes:     3", "Mappings:  40"]
    );
    assert_eq!(lines[1][1].style, Style::Green);
    let lines = reload_summary_lines(&parse(r#"{"reload_duration_ms": 90}"#));
    assert_eq!(text(&lines)[1], "Duration:  90 ms (grade: ?)");
    assert_eq!(lines[1][1].style, Style::Red);
    assert_eq!(text(&validate_summary_lines(&parse(r#"{"valid": true, "modes": 2}"#))), vec!["✓ Configuration is valid", "Modes:    2"]);
    assert_eq!(text(&validate_summary_lines(&parse(r#"{"valid": false}"#))), vec!["✗ Configuration is invalid"]);
    assert!(validate_summary_lines(&parse("{}")).is_empty());
}

#[test]
fn audit_resume_and_mcp_lines() {
    assert_eq!(
        line_text(&resume_message(Some(&parse(r#"{"recovered": true, "rotated_path": "/tmp/o.bad"}"#)))),
        "✓ Audit resumed — rotated corrupt outbox to /tmp/o.bad"
    );
    assert_eq!(line_text(&resume_message(Some(&parse(r#"{"recovered": true}"#)))), "✓ Audit resumed.");
    assert_eq!(line_text(&resume_message(None)), "✓ Audit outbox already healthy — nothing to recover.");
    assert_eq!(
        line_text(&mcp_client_line(AuditRiskTier::Stateful, "gui", "/bin/gui")),
        "  stateful  gui  /bin/gui"
    );
}

#[test]
fn config_save_checks() {
    assert!(config_save_precheck(Some("c.toml"), false).unwrap_err().contains("conductorctl config import c.toml"));
    assert!(config_save_precheck(None, true).unwrap_err().starts_with("`config save` reads the config from stdin"));
    assert_eq!(config_save_precheck(None, false), Ok(()));
    assert_eq!(config_body_check(" \n\t").unwrap_err(), "`config save` read an empty config from stdin");
    assert_eq!(config_body_check("a = 1"), Ok(()));
    assert_eq!(snapshot_generation(Some(&parse(r#"{"state_generation": 7}"#))), Ok(7));
    assert!(snapshot_generation(None).is_err());
}

#[test]
fn start_wait_decisions() {
    assert_eq!(start_wait_step(true, 0, 0), StartWait::Ready);
    assert_eq!(start_wait_step(false, 1999, 2), StartWait::PollAgain);
    assert_eq!(start_wait_step(false, 2000, 2), StartWait::TimedOut);
}
