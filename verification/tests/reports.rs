use conductor_tools::ctl_daemon::{
    binding_connected, binding_partition_counts, binding_row_text, empty_bindings_message, reload_grade,
    status_device_array, status_report, ReloadGrade,
};
use conductor_tools::ctl_diag::{
    budget_source, budget_table, human_check_report, permission_from_payload, permission_status_json_fields,
    CheckContext, LlmBudget, PermissionStatus,
};
use conductor_tools::json::{JsonField, JsonNumber, JsonValue};
use conductor_tools::skills::{tally_skills, validation_error_lines, SkillValidationError};
use conductor_tools::styled::{Span, Style};

fn from_serde(v: &serde_json::Value) -> JsonValue {
    match v {
        serde_json::Value::Null => JsonValue::Null,
        serde_json::Value::Bool(b) => JsonValue::Bool(*b),
        serde_json::Value::Number(n) => JsonValue::Number(JsonNumber {
            as_u64: n.as_u64(),
            as_i64: n.as_i64(),
            as_f64_to_u64: n.as_f64().map(|f| f as u64),
            text: n.to_string(),
        }),
        serde_json::Value::String(s) => JsonValue::Str(s.clone()),
        serde_json::Value::Array(a) => JsonValue::Array(a.iter().map(from_serde).collect()),
        serde_json::Value::Object(m) => JsonValue::Object(
            m.iter()
                .map(|(k, v)| JsonField { key: k.clone(), value: from_serde(v) })
                .collect(),
        ),
    }
}

fn parse(text: &str) -> JsonValue {
    from_serde(&serde_json::from_str::<serde_json::Value>(text).unwrap())
}

fn plain(lines: &[Vec<Span>]) -> Vec<String> {
    lines.iter().map(|l| l.iter().map(|s| s.text.as_str()).collect()).collect()
}

fn ctx(is_macos: bool, is_linux: bool) -> CheckContext {
    CheckContext { is_macos, is_linux, sibling_daemon: None, deeplink: "x-apple:im".to_string() }
}

#[test]
fn permission_payload_and_json_fields() {
    let s = permission_from_payload(&parse(r#"{"input_monitoring_granted": true}"#));
    assert!(matches!(s, PermissionStatus::Granted));
    assert_eq!(permission_status_json_fields(&s), ("granted", None));
    let s = permission_from_payload(&parse(r#"{"input_monitoring": "not_applicable"}"#));
    assert_eq!(permission_status_json_fields(&s), ("not_applicable", None));
    let s = permission_from_payload(&parse(r#"{"input_monitoring": "weird", "detail": "tcc db locked"}"#));
    assert_eq!(permission_status_json_fields(&s), ("unknown", Some("tcc db locked".to_string())));
    let s = permission_from_payload(&parse("{}"));
    assert_eq!(permission_status_json_fields(&s), ("unknown", Some("daemon reported unknown".to_string())));
}

#[test]
fn report_with_daemon_answer() {
    let lines = human_check_report(&ctx(false, true), Some(&PermissionStatus::NotGranted), None);
    let text = plain(&lines);
    assert_eq!(text[0], "Daemon (running, via IPC): NOT GRANTED");
    assert_eq!(text[3], "    open \"x-apple:im\"");
    assert_eq!(lines[0][1].style, Style::Red);
    let lines = human_check_report(&ctx(false, true), Some(&PermissionStatus::NotApplicable), None);
    assert_eq!(
        plain(&lines),
        vec![
            "No consent gate required on this platform.".to_string(),
            "Linux uses udev rules + the `input` group. See SUPPORT.md for the install instructions.".to_string(),
        ]
    );
}

#[test]
fn report_on_macos_names_both_binaries() {
    let mut c = ctx(true, false);
    c.sibling_daemon = Some("/opt/conductor".to_string());
    let text = plain(&human_check_report(&c, Some(&PermissionStatus::Granted), None));
    assert!(text[0].starts_with("[macOS] Input Monitoring grants are required"));
    assert_eq!(text[3], "  Daemon:     /opt/conductor (resolved from this conductorctl)");
    assert_eq!(text[5], "Daemon (running, via IPC): GRANTED");
    assert!(text.last().unwrap().starts_with("(GUI app's grant can't be checked from the CLI"));
}

#[test]
fn report_falls_back_to_the_local_probe() {
    let text = plain(&human_check_report(
        &ctx(false, false),
        None,
        Some(&PermissionStatus::Unknown("no tcc".to_string())),
    ));
    assert_eq!(text[0], "Daemon: UNKNOWN (couldn't reach the running daemon)");
    assert_eq!(text[3], "  conductorctl probe: UNKNOWN (no tcc)");
    assert!(human_check_report(&ctx(false, false), None, None).is_empty());
}

fn budget(v: u64) -> LlmBudget {
    LlmBudget {
        max_iterations_per_turn: v,
        max_iterations_per_session: 0,
        max_tool_calls_per_turn: 3,
        max_tool_calls_per_session: 4,
        max_tokens_in_per_session: 5,
        max_tokens_out_per_session: 6,
        max_wall_clock_seconds_per_turn: 7,
        max_wall_clock_seconds_per_session: 8,
        max_config_changes_per_session: 9,
        max_shell_exec_per_session: 10,
        max_network_tool_calls_per_session: 11,
        max_midi_out_per_session: 12,
        max_confirmations_requested_per_minute: 13,
        max_tokens_per_60sec: 14,
    }
}

#[test]
fn budget_table_rows() {
    let lines = budget_table(&budget(25));
    assert_eq!(lines.len(), 14);
    let text = plain(&lines);
    assert_eq!(text[0], format!("  {:<40} 25", "max_iterations_per_turn"));
    assert_eq!(text[1], format!("  {:<40} disabled", "max_iterations_per_session"));
    assert_eq!(lines[1][1].style, Style::Dimmed);
    assert_eq!(text[13], format!("  {:<40} 14", "max_tokens_per_60sec"));
    assert_eq!(budget_source(false, "/c.toml"), "ADR-027 §D6 defaults (no config file)");
    assert_eq!(budget_source(true, "/c.toml"), "/c.toml");
}

#[test]
fn skill_errors_render_with_hints_in_verbose_mode() {
    let e = SkillValidationError::InvalidLicense("WTFPL-ish".to_string());
    assert_eq!(plain(&validation_error_lines(&e, false)), vec!["      • Invalid license: WTFPL-ish (use SPDX identifier)".to_string()]);
    let verbose = plain(&validation_error_lines(&e, true));
    assert_eq!(verbose.len(), 2);
    assert_eq!(verbose[1], "        Valid examples: MIT, Apache-2.0, GPL-3.0, BSD-3-Clause");
    let e = SkillValidationError::TokenLimitExceeded { actual: 6000, max: 5000 };
    assert_eq!(
        plain(&validation_error_lines(&e, true)),
        vec!["      • Body exceeds token limit: 6000 > 5000 (reduce content or use references)".to_string()]
    );
    let e = SkillValidationError::NameMismatch { expected: "a".to_string(), actual: "b".to_string() };
    assert_eq!(plain(&validation_error_lines(&e, false))[0], "      • Name mismatch: directory='a', skill.name='b'");
}

#[test]
fn skill_tally() {
    assert_eq!(tally_skills(&vec![true, false, true]), (2, 1));
    assert_eq!(tally_skills(&vec![]), (0, 0));
}

#[test]
fn status_report_fields() {
    let r = status_report(&parse(
        r#"{"state": "Running", "uptime_secs": 3661, "events_processed": 1234567, "config_reloads": 2,
            "reload_stats": {"avg_reload_ms": 25, "last_reload_ms": 10}}"#,
    ));
    assert_eq!(r.state.as_deref(), Some("Running"));
    assert_eq!(r.current_mode, None);
    assert_eq!(r.uptime.as_deref(), Some("1h 1m 1s"));
    assert_eq!(r.events.as_deref(), Some("1,234,567"));
    assert_eq!(r.config_reloads, Some(2));
    let stats = r.reload_stats.unwrap();
    assert_eq!(stats.avg, Some((25, ReloadGrade::B)));
    assert_eq!(stats.last_ms, Some(10));
    assert_eq!(stats.fastest_ms, None);
    assert_eq!(reload_grade(19), ReloadGrade::A);
    assert_eq!(reload_grade(50), ReloadGrade::C);
}

#[test]
fn binding_rows_and_counts() {
    let data = parse(
        r#"{"device_status": {"devices": [
            {"device_id": "fcb", "port_name": "FCB1010", "connected": true, "is_configured": true},
            {"device_id": "raw:IAC", "port_name": "IAC", "connected": false}
        ]}}"#,
    );
    let devs = status_device_array(&data).unwrap();
    let refs: Vec<&JsonValue> = devs.iter().collect();
    assert_eq!(binding_partition_counts(&refs), (1, 1));
    assert!(binding_connected(&devs[0]));
    assert!(!binding_connected(&devs[1]));
    assert_eq!(binding_row_text(&devs[0]), format!("{:<24} {:<32} ← Input", "fcb", "FCB1010"));
    assert!(status_device_array(&parse("{}")).is_none());
    assert!(!empty_bindings_message(true, false).is_empty());
}
