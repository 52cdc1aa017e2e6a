use conductor_tools::ctl_events::{csv_escape, parse_duration_str, resolve_capture_secs};

fn check_csv_escape() {
    assert_eq!(csv_escape("hello"), "hello");
    assert_eq!(csv_escape("hello,world"), "\"hello,world\"");
    assert_eq!(csv_escape("say \"hi\""), "\"say \"\"hi\"\"\"");
    assert_eq!(csv_escape("line1\nline2"), "\"line1\nline2\"");
    assert_eq!(csv_escape(""), "");
}

fn check_parse_duration_str() {
    assert_eq!(parse_duration_str(None), None);
    assert_eq!(parse_duration_str(Some("10s")), Some(10));
    assert_eq!(parse_duration_str(Some("1m")), Some(60));
    assert_eq!(parse_duration_str(Some("30")), Some(30));
    assert_eq!(parse_duration_str(Some("5m")), Some(300));
    assert_eq!(parse_duration_str(Some("1h")), Some(3600));
    assert_eq!(parse_duration_str(Some("2h")), Some(7200));
    assert_eq!(parse_duration_str(Some("abc")), None);
}

fn check_resolve_capture_secs() {
    assert_eq!(resolve_capture_secs(None).unwrap(), 2);
    assert_eq!(resolve_capture_secs(Some("10s")).unwrap(), 10);
    assert_eq!(resolve_capture_secs(Some("5m")).unwrap(), 300);
    let err = resolve_capture_secs(Some("10seconds")).unwrap_err();
    assert!(
        err.to_string().contains("Invalid --duration value '10seconds'"),
        "expected a clear invalid-duration error, got: {err}"
    );
    assert!(resolve_capture_secs(Some("nope")).is_err());
}

#[test]
fn conductorctl_test_csv_escape() {
    check_csv_escape();
}

#[test]
fn tests_test_csv_escape() {
    check_csv_escape();
}

#[test]
fn conductorctl_test_parse_duration_str() {
    check_parse_duration_str();
}

#[test]
fn tests_test_parse_duration_str() {
    check_parse_duration_str();
}

#[test]
fn conductorctl_test_resolve_capture_secs() {
    check_resolve_capture_secs();
}

#[test]
fn tests_test_resolve_capture_secs() {
    check_resolve_capture_secs();
}

use conductor_tools::ctl_events::{
    build_event_filter, capture_banner, capture_summary, cli_channel_to_filter, debounce_step,
    event_passes, events_csv, format_event_csv_row, format_event_text, merge_named_filter,
    named_filter_missing, select_snapshot, since_cutoff_ms, EventFilter, NamedFilter,
};
use conductor_tools::json::{JsonField, JsonNumber, JsonValue};

fn from_serde(v: &serde_json::Value) -> JsonValue {
    match v {
        serde_json::Value::Null => JsonValue::Null,
        serde_json::Value::Bool(b) => JsonValue::Bool(*b),
        serde_json::Value::Number(n) => JsonValue::Number(JsonNumber {
            as_u64: n.as_u64(),
            as_i64: n.as_i64(),
            as_f64_to_u64: n.as_f64().map(|f| f as u64),
            text: n.to_string(),
        }),
        serde_json::Value::String(s) => JsonValue::Str(s.clone()),
        serde_json::Value::Array(a) => JsonValue::Array(a.iter().map(from_serde).collect()),
        serde_json::Value::Object(m) => JsonValue::Object(
            m.iter()
                .map(|(k, v)| JsonField { key: k.clone(), value: from_serde(v) })
                .collect(),
        ),
    }
}

fn parse(text: &str) -> JsonValue {
    from_serde(&serde_json::from_str::<serde_json::Value>(text).unwrap())
}

fn no_filter() -> EventFilter {
    EventFilter { event_type: None, channel: None, note_min: None, note_max: None, device_id: None, since_ms: None }
}

fn export_csv_lines(events: &[&str]) -> String {
    let evs: Vec<JsonValue> = events.iter().map(|e| parse(e)).collect();
    events_csv(&evs)
}

#[test]
fn export_events_csv_has_header_and_rows() {
    let content = export_csv_lines(&[
        r#"{"timestamp_ms": 1000, "event_type": "note_on", "note": 60, "velocity": 100}"#,
        r#"{"timestamp_ms": 2000, "event_type": "cc", "cc": 1, "value": 64}"#,
    ]);
    let lines: Vec<&str> = content.lines().collect();
    assert_eq!(lines.len(), 3);
    assert!(lines[0].starts_with("timestamp_ms,"));
    assert!(lines[1].starts_with("1000,note_on,"));
    assert!(lines[2].starts_with("2000,cc,"));
    assert_eq!(lines[1], "1000,note_on,,,60,100,,,,");
}

#[test]
fn export_events_csv_quotes_special_chars() {
    let content = export_csv_lines(&[r#"{"timestamp_ms": 1000, "event_type": "note_on", "device_id": "my,device"}"#]);
    assert!(content.contains("\"my,device\""));
}

#[test]
fn csv_row_of_an_empty_event_is_all_commas() {
    assert_eq!(format_event_csv_row(&parse("{}")), ",,,,,,,,,");
    assert_eq!(events_csv(&vec![]), "timestamp_ms,event_type,device_id,channel,note,velocity,cc,value,button,axis\n");
}

#[test]
fn debounce_drops_events_closer_than_the_window() {
    assert_eq!(debounce_step(1000, 0, Some(50)), (true, 1000));
    assert_eq!(debounce_step(1030, 1000, Some(50)), (false, 1000));
    assert_eq!(debounce_step(1050, 1000, Some(50)), (true, 1050));
    assert_eq!(debounce_step(0, 1000, Some(50)), (true, 1000));
    assert_eq!(debounce_step(1001, 1000, None), (true, 1000));
}

#[test]
fn channel_and_since_conversions() {
    assert_eq!(cli_channel_to_filter(Some(1)), Some(0));
    assert_eq!(cli_channel_to_filter(Some(0)), Some(0));
    assert_eq!(cli_channel_to_filter(Some(16)), Some(15));
    assert_eq!(cli_channel_to_filter(None), None);
    assert_eq!(since_cutoff_ms(100_000, 30), 70_000);
    assert_eq!(since_cutoff_ms(1_000, 30), 0);
    assert_eq!(since_cutoff_ms(5, u64::MAX), 0);
}

#[test]
fn filter_building_and_errors() {
    let f = build_event_filter(Some("note_on"), Some(2), Some(36), None, Some("pad"), Some("1m"), 100_000).unwrap();
    assert_eq!(f.event_type.as_deref(), Some("note_on"));
    assert_eq!(f.channel, Some(1));
    assert_eq!(f.note_min, Some(36));
    assert_eq!(f.device_id.as_deref(), Some("pad"));
    assert_eq!(f.since_ms, Some(40_000));
    let err = build_event_filter(None, None, None, None, None, Some("soon"), 0).err().unwrap();
    assert_eq!(err, "Invalid --since value 'soon'. Use e.g. 30s, 5m, 1h");
    assert_eq!(named_filter_missing("x"), "Named filter 'x' not found in [event_console.filters] config");
}

#[test]
fn named_filter_fills_only_unset_fields() {
    let mut f = no_filter();
    f.channel = Some(3);
    let named = NamedFilter {
        event_type: Some("cc".to_string()),
        channel: Some(9),
        note_min: Some(1),
        note_max: None,
        device_id: None,
    };
    merge_named_filter(&mut f, &named);
    assert_eq!(f.channel, Some(3));
    assert_eq!(f.event_type.as_deref(), Some("cc"));
    assert_eq!(f.note_min, Some(1));
    assert_eq!(f.note_max, None);
}

fn check_bad_json_with_filter() {
    let mut f = no_filter();
    f.event_type = Some("note_on".to_string());
    // An event that does not deserialize has no verdict; with a filter active it is skipped.
    assert!(!event_passes(&f, None));
}

fn check_bad_json_no_filter() {
    assert!(event_passes(&no_filter(), None));
}

#[test]
fn conductorctl_test_event_passes_filter_bad_json_with_filter() {
    check_bad_json_with_filter();
}

#[test]
fn tests_test_event_passes_filter_bad_json_with_filter() {
    check_bad_json_with_filter();
}

#[test]
fn conductorctl_test_event_passes_filter_bad_json_no_filter() {
    check_bad_json_no_filter();
}

#[test]
fn tests_test_event_passes_filter_bad_json_no_filter() {
    check_bad_json_no_filter();
}

#[test]
fn a_verdict_decides_when_there_is_one() {
    let mut f = no_filter();
    f.channel = Some(0);
    assert!(event_passes(&f, Some(true)));
    assert!(!event_passes(&no_filter(), Some(false)));
}

#[test]
fn snapshot_keeps_the_first_passing_events_up_to_the_limit() {
    let passes = vec![false, true, true, false, true];
    assert_eq!(select_snapshot(&passes, 2, false), vec![1, 2]);
    assert_eq!(select_snapshot(&passes, 2, true), vec![1, 2, 4]);
    assert_eq!(select_snapshot(&passes, 10, false), vec![1, 2, 4]);
    assert_eq!(select_snapshot(&passes, 0, false), Vec::<usize>::new());
}

#[test]
fn capture_texts() {
    assert_eq!(capture_banner(1), "Monitoring events for 1 second...");
    assert_eq!(capture_banner(10), "Monitoring events for 10 seconds...");
    assert_eq!(capture_summary(None, 0), "No events captured.");
    assert_eq!(capture_summary(None, 3), "3 event(s) captured.");
    assert_eq!(capture_summary(Some("out.csv"), 3), "3 event(s) exported to out.csv");
}

#[test]
fn event_text_line() {
    let e = parse(r#"{"timestamp_ms": 3723004, "event_type": "note_on", "note": 60, "velocity": 100, "channel": 2, "device_id": "pad", "processing_us": 42}"#);
    assert_eq!(
        format_event_text(&e, Some("1.5")),
        "[01:02:03.004] NOTE_ON              note:60  vel:100 ch:2   dev:pad proc:42us mem:1.5MB"
    );
    assert_eq!(format_event_text(&parse("{}"), None), "[00:00:00.000] UNKNOWN               ");
}
