use conductor_tools::json::{JsonField, JsonNumber, JsonValue};
use conductor_tools::state_dump::{
    daemon_error_text, empty_store_message, group_by_device, entry_count_text, extract_tool_text, format_entry,
    render_title, ToolPayloadError,
};

fn from_serde(v: &serde_json::Value) -> JsonValue {
    match v {
        serde_json::Value::Null => JsonValue::Null,
        serde_json::Value::Bool(b) => JsonValue::Bool(*b),
        serde_json::Value::Number(n) => JsonValue::Number(JsonNumber {
            as_u64: n.as_u64(),
            as_i64: n.as_i64(),
            as_f64_to_u64: n.as_f64().map(|f| f as u64),
            text: n.to_string(),
        }),
        serde_json::Value::String(s) => JsonValue::Str(s.clone()),
        serde_json::Value::Array(a) => JsonValue::Array(a.iter().map(from_serde).collect()),
        serde_json::Value::Object(m) => JsonValue::Object(
            m.iter()
                .map(|(k, v)| JsonField { key: k.clone(), value: from_serde(v) })
                .collect(),
        ),
    }
}

fn parse(text: &str) -> JsonValue {
    from_serde(&serde_json::from_str::<serde_json::Value>(text).unwrap())
}

fn error_text(e: ToolPayloadError) -> String {
    match e {
        ToolPayloadError::Message(m) => m,
        ToolPayloadError::MissingText { nested } => format!("missing text (nested: {nested})"),
    }
}

/// The inner payload as the tool parses it.
fn extract_tool_json(envelope: &str) -> Result<serde_json::Value, String> {
    let text = extract_tool_text(&parse(envelope)).map_err(error_text)?;
    serde_json::from_str(&text).map_err(|e| e.to_string())
}

#[test]
fn extract_tool_json_pulls_inner_payload() {
    let body = extract_tool_json(r#"{"content": [{"type": "text", "text": "{\"entries\":[],\"total\":0}"}]}"#).unwrap();
    assert_eq!(body["total"], 0);
}

#[test]
fn extract_tool_json_reports_error_flag() {
    let err = extract_tool_json(r#"{"content": [{"type": "text", "text": "Store not available"}], "isError": true}"#)
        .unwrap_err();
    assert!(err.contains("Store not available"), "got: {err}");
}

#[test]
fn extract_tool_json_unwraps_execution_result_envelope() {
    let body = extract_tool_json(
        r#"{"type": "Success", "result": {"content": [{"type": "text", "text": "{\"entries\":[],\"total\":0}"}]}}"#,
    )
    .unwrap();
    assert_eq!(body["total"], 0);
}

#[test]
fn extract_tool_json_reports_error_through_envelope() {
    let err = extract_tool_json(
        r#"{"type": "Success", "result": {"content": [{"type": "text", "text": "kaboom"}], "isError": true}}"#,
    )
    .unwrap_err();
    assert!(err.contains("kaboom"), "got: {err}");
}

#[test]
fn extract_tool_json_handles_execution_error_variant() {
    let err = extract_tool_json(r#"{"type": "Error", "message": "control-state store not initialised"}"#).unwrap_err();
    assert!(err.contains("control-state store not initialised"), "got: {err}");
}

#[test]
fn extract_tool_json_handles_rate_limited_variant() {
    let err = extract_tool_json(
        r#"{"type": "RateLimited", "tier": "ReadOnly", "current": 100, "limit": 60, "retry_after_secs": 5}"#,
    )
    .unwrap_err();
    assert!(err.contains("Rate limited"), "got: {err}");
    assert!(err.contains("5s"), "got: {err}");
}

#[test]
fn extract_tool_json_rejects_unknown_variant() {
    let err = extract_tool_json(r#"{"type": "SomeFutureVariant"}"#).unwrap_err();
    assert!(err.contains("SomeFutureVariant"), "got: {err}");
}

#[test]
fn missing_text_says_where_it_looked() {
    match extract_tool_text(&parse(r#"{"content": []}"#)) {
        Err(ToolPayloadError::MissingText { nested }) => assert!(!nested),
        _ => panic!("expected missing text"),
    }
    match extract_tool_text(&parse(r#"{"type": "Logged", "result": {"content": [{"type": "image"}]}}"#)) {
        Err(ToolPayloadError::MissingText { nested }) => assert!(nested),
        _ => panic!("expected missing text"),
    }
    match extract_tool_text(&parse(r#"{"type": "Success"}"#)) {
        Err(ToolPayloadError::Message(m)) => {
            assert_eq!(m, "ExecutionResult::{Success,Logged} missing 'result' field")
        }
        _ => panic!("expected a message"),
    }
}

#[test]
fn format_entry_program_change() {
    let e = parse(r#"{"kind": "program_change", "device": "fcb1010", "channel": 0, "value": 12}"#);
    assert_eq!(format_entry(&e), "ch1  PC  12");
}

#[test]
fn format_entry_control_change() {
    let e = parse(r#"{"kind": "control_change", "device": "fcb1010", "channel": 0, "cc": 7, "value": 50}"#);
    assert_eq!(format_entry(&e), "ch1  CC    7 = 50");
}

#[test]
fn format_entry_note_held() {
    let e = parse(r#"{"kind": "note_held", "device": "pad", "channel": 9, "note": 36, "value": 100}"#);
    assert_eq!(format_entry(&e), "ch10  note  36  (velocity 100)");
}

#[test]
fn format_entry_unknown_kind_falls_back() {
    let e = parse(r#"{"kind": "mystery", "channel": 0, "value": 7}"#);
    assert_eq!(format_entry(&e), "ch1  mystery            7");
}

#[test]
fn format_entry_other_kinds() {
    assert_eq!(format_entry(&parse(r#"{"kind": "pitch_bend", "channel": 1, "value": -200}"#)), "ch2  pitch-bend  = -200");
    assert_eq!(format_entry(&parse(r#"{"kind": "channel_aftertouch", "value": 3}"#)), "ch?  channel-at  = 3");
    assert_eq!(
        format_entry(&parse(r#"{"kind": "poly_aftertouch", "channel": 0, "note": 60, "value": 9}"#)),
        "ch1  poly-at note 60  = 9"
    );
}

#[test]
fn headings_and_counts() {
    assert_eq!(render_title(Some("pad")), "Control state — device: pad");
    assert_eq!(render_title(None), "Control state — all devices");
    assert_eq!(empty_store_message(None), "(store is empty — re-stomp / re-press to observe state)");
    assert!(empty_store_message(Some("fcb")).starts_with("(no entries for device 'fcb'"));
    assert_eq!(entry_count_text(1), "1 entry");
    assert_eq!(entry_count_text(0), "0 entries");
    assert_eq!(daemon_error_text(500, "boom", Some("ctx")), "Daemon error [500]: boom — ctx");
    assert_eq!(daemon_error_text(404, "gone", None), "Daemon error [404]: gone");
}

#[test]
fn entries_are_grouped_by_device_in_name_order() {
    let entries = vec![
        parse(r#"{"kind": "program_change", "device": "pad", "channel": 0, "value": 1}"#),
        parse(r#"{"kind": "program_change", "device": "fcb", "channel": 0, "value": 2}"#),
        parse(r#"{"kind": "program_change", "channel": 0, "value": 3}"#),
        parse(r#"{"kind": "program_change", "device": "pad", "channel": 0, "value": 4}"#),
    ];
    let groups = group_by_device(&entries);
    let shown: Vec<(&str, Vec<usize>)> = groups.iter().map(|g| (g.device.as_str(), g.entries.clone())).collect();
    assert_eq!(shown, vec![("?", vec![2]), ("fcb", vec![1]), ("pad", vec![0, 3])]);
    assert!(group_by_device(&vec![]).is_empty());
}
