use conductor_tools::ctl_audit::{audit_stream_line, SeenIds, StreamAction};
use conductor_tools::ctl_playback::parse_playback_json;
use conductor_tools::json::JsonValue;
use conductor_tools::sign::payload_rollback_warnings;
use conductor_tools::state_dump::parse_tool_payload;

#[test]
fn audit_stream_line_skips_blank_lines() {
    let mut seen = SeenIds::new();
    assert!(matches!(audit_stream_line("   \n", &mut seen, 20), Ok(None)));
}

#[test]
fn audit_stream_line_refuses_text_that_is_not_json() {
    let mut seen = SeenIds::new();
    seen.insert("a1");
    let err = audit_stream_line("{not json\n", &mut seen, 20).err().expect("malformed line fails");
    assert!(err.starts_with("Malformed audit stream line: "), "got {err}");
    assert!(err.len() > "Malformed audit stream line: ".len());
    // Nothing was forgotten.
    assert!(matches!(audit_stream_line(r#"{"id":"a1"}"#, &mut seen, 20), Ok(Some((StreamAction::Duplicate, _)))));
}

#[test]
fn audit_stream_line_steps_parsed_entries() {
    let mut seen = SeenIds::new();
    seen.insert("e7");
    match audit_stream_line(r#"  {"lagged": 50}  "#, &mut seen, 20) {
        Ok(Some((StreamAction::Lagged(m), _))) => assert!(m.contains("lagged by 50 events"), "got {m}"),
        _ => panic!("a lagged marker warns"),
    }
    assert!(matches!(audit_stream_line(r#"{"id":"e7","tool":"x"}"#, &mut seen, 20), Ok(Some((StreamAction::Duplicate, _)))));
    match audit_stream_line(r#"{"id":"e7","tool":"x"}"#, &mut seen, 20) {
        Ok(Some((StreamAction::Show, entry))) => assert_eq!(entry.get_str("tool"), Some("x")),
        _ => panic!("a second sighting is shown"),
    }
}

#[test]
fn playback_json_reads_an_array() {
    let events = parse_playback_json("  [{\"timestamp_ms\": 5}, {\"timestamp_ms\": 9}]\n").unwrap();
    assert_eq!(events.len(), 2);
    assert_eq!(events[1].get_u64("timestamp_ms"), Some(9));
}

#[test]
fn playback_json_reads_json_lines_skipping_blanks() {
    let events = parse_playback_json("{\"timestamp_ms\": 1}\n\n   \n{\"timestamp_ms\": 2}\r\n").unwrap();
    assert_eq!(events.len(), 2);
    assert_eq!(events[0].get_u64("timestamp_ms"), Some(1));
    assert_eq!(events[1].get_u64("timestamp_ms"), Some(2));
    assert_eq!(parse_playback_json("").unwrap().len(), 0);
}

#[test]
fn playback_json_reports_which_reading_failed() {
    let e = parse_playback_json("[1, 2").err().expect("a broken array fails");
    assert!(e.starts_with("Failed to parse JSON events array: "), "got {e}");
    let e = parse_playback_json("{\"a\": 1}\nnope\n").err().expect("a broken line fails");
    assert!(e.starts_with("Failed to parse JSON lines: "), "got {e}");
}

#[test]
fn tool_payload_is_read_or_named() {
    let body = parse_tool_payload("{\"entries\":[],\"total\":0}").unwrap();
    assert_eq!(body.get_u64("total"), Some(0));
    assert!(matches!(body.get("entries"), Some(JsonValue::Array(v)) if v.is_empty()));
    assert_eq!(
        parse_tool_payload("nope").err().expect("not JSON"),
        "Failed to parse tool payload as JSON: nope"
    );
}

#[test]
fn registry_payload_warnings() {
    assert_eq!(payload_rollback_warnings("not json").len(), 0);
    assert_eq!(payload_rollback_warnings(r#"{"sequence_number": 3, "published_at": "2026-01-01T00:00:00Z"}"#).len(), 0);
    let w = payload_rollback_warnings("{}");
    assert_eq!(w.len(), 2);
    assert!(w[0].contains("sequence_number"));
    assert!(w[1].contains("published_at"));
}
