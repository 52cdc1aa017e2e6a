use conductor_tools::json::{JsonField, JsonNumber, JsonValue};
use conductor_tools::menubar::{
    extract_status, format_duration, icon_for_state, ipc_timeout_message, plan_quit,
    reload_outcome, status_of_reply, IconState, QuitAction,
};

fn from_serde(v: &serde_json::Value) -> JsonValue {
    match v {
        serde_json::Value::Null => JsonValue::Null,
        serde_json::Value::Bool(b) => JsonValue::Bool(*b),
        serde_json::Value::Number(n) => JsonValue::Number(JsonNumber {
            as_u64: n.as_u64(),
            as_i64: n.as_i64(),
            as_f64_to_u64: n.as_f64().map(|f| f as u64),
            text: n.to_string(),
        }),
        serde_json::Value::String(s) => JsonValue::Str(s.clone()),
        serde_json::Value::Array(a) => JsonValue::Array(a.iter().map(from_serde).collect()),
        serde_json::Value::Object(m) => JsonValue::Object(
            m.iter()
                .map(|(k, v)| JsonField { key: k.clone(), value: from_serde(v) })
                .collect(),
        ),
    }
}

fn status_of(payload: &str) -> conductor_tools::menubar::MenuStatus {
    status_of_reply(payload)
}

#[test]
fn extract_status_on_parsed_value_agrees() {
    let v: serde_json::Value =
        serde_json::from_str(r#"{"daemon": {"lifecycle_state": "Stopped", "uptime_seconds": 3725.0}}"#).unwrap();
    let s = extract_status(Some(&from_serde(&v)));
    assert_eq!(s.text, "Conductor: Stopped\nUptime: 1h 2m");
    assert_eq!(s.icon, IconState::Stopped);
}

#[test]
fn malformed_status_payload_is_not_reported_as_running() {
    let status = status_of("this is not valid json {{{");
    assert!(!status.text.contains("Running"), "got {:?}", status.text);
    assert_eq!(status.icon, IconState::Error);
}

#[test]
fn unexpected_status_shape_is_not_reported_as_running() {
    let status = status_of(r#"{"something_else": {"foo": 1}}"#);
    assert!(!status.text.contains("Running"), "got {:?}", status.text);
    assert_eq!(status.icon, IconState::Error);
}

#[test]
fn valid_running_status_maps_to_running_icon() {
    let payload = r#"{"daemon": {"lifecycle_state": "Running", "uptime_seconds": 12.0}}"#;
    let status = status_of(payload);
    assert!(status.text.contains("Running"), "got {:?}", status.text);
    assert_eq!(status.icon, IconState::Running);
    assert_eq!(status.text, "Conductor: Running\nUptime: 12s");
}

#[test]
fn degraded_daemon_does_not_show_running_icon() {
    let payload = r#"{"daemon": {"lifecycle_state": "Degraded", "uptime_seconds": 5.0}}"#;
    let status = status_of(payload);
    assert_eq!(status.icon, IconState::Error);
}

#[test]
fn substring_running_state_does_not_show_running_icon() {
    assert_eq!(icon_for_state("NotRunning"), IconState::Error);
    assert_eq!(icon_for_state("RunningDegraded"), IconState::Error);
    assert_eq!(icon_for_state("Running"), IconState::Running);
    assert_eq!(icon_for_state("Stopped"), IconState::Stopped);
    assert_eq!(icon_for_state("Stopping"), IconState::Stopped);
    assert_eq!(icon_for_state("SomeNewState"), IconState::Error);
}

#[test]
fn quit_maps_stop_failure_to_exit_immediately() {
    let plan = plan_quit(Err("Failed to connect: socket missing".to_string()));
    match plan {
        QuitAction::ExitImmediately { status } => {
            assert!(status.contains("socket missing"), "status should surface the underlying error: {status}");
        }
        QuitAction::DrainThenExit { .. } => panic!("a failed Stop must map to ExitImmediately; got {plan:?}"),
    }
}

#[test]
fn quit_maps_stop_success_to_drain_then_exit() {
    let plan = plan_quit(Ok("{}".to_string()));
    match plan {
        QuitAction::DrainThenExit { drain_ms, .. } => {
            assert_eq!(drain_ms, 500, "successful stop keeps the original 500ms drain delay");
        }
        QuitAction::ExitImmediately { .. } => panic!("a successful Stop must drain-then-exit; got {plan:?}"),
    }
}

#[test]
fn uptime_uses_the_largest_unit() {
    assert_eq!(format_duration(0), "0s");
    assert_eq!(format_duration(59), "59s");
    assert_eq!(format_duration(60), "1m");
    assert_eq!(format_duration(3599), "59m");
    assert_eq!(format_duration(3600), "1h 0m");
    assert_eq!(format_duration(7322), "2h 2m");
}

#[test]
fn status_without_uptime_reads_unknown() {
    let status = status_of(r#"{"daemon": {"lifecycle_state": "Stopping"}}"#);
    assert_eq!(status.text, "Conductor: Stopping\nUptime: Unknown");
    assert_eq!(status.icon, IconState::Stopped);
    let status = status_of(r#"{"daemon": {}}"#);
    assert_eq!(status.text, "Conductor: Unknown\nUptime: Unknown");
    assert_eq!(status.icon, IconState::Error);
}

#[test]
fn reload_outcome_texts() {
    assert_eq!(reload_outcome(&Ok("x".to_string())), ("Conductor: Running".to_string(), None));
    assert_eq!(
        reload_outcome(&Err("boom".to_string())),
        ("Conductor: Error - boom".to_string(), Some(IconState::Error))
    );
}

#[test]
fn ipc_timeout_reads_not_responding() {
    let m = ipc_timeout_message(5);
    assert_eq!(m, "daemon did not respond within 5s (not responding)");
    assert!(m.contains("not responding"));
}
