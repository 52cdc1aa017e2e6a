use conductor_tools::ctl_daemon::{filter_bindings, format_duration, format_number};
use conductor_tools::ctl_profile::validate_profile_name;
use conductor_tools::ipc::{check_ipc_response, ErrorDetails, IpcResponse, ResponseStatus};
use conductor_tools::json::{JsonField, JsonNumber, JsonValue};

fn num(n: u64) -> JsonValue {
    JsonValue::Number(JsonNumber {
        as_u64: Some(n),
        as_i64: if n <= i64::MAX as u64 { Some(n as i64) } else { None },
        as_f64_to_u64: Some((n as f64) as u64),
        text: n.to_string(),
    })
}

fn text(s: &str) -> JsonValue {
    JsonValue::Str(s.to_string())
}

fn obj(fields: Vec<(&str, JsonValue)>) -> JsonValue {
    JsonValue::Object(
        fields
            .into_iter()
            .map(|(k, v)| JsonField { key: k.to_string(), value: v })
            .collect(),
    )
}

fn devices_fixture() -> Vec<JsonValue> {
    vec![
        obj(vec![
            ("device_id", text("fcb")),
            ("port_name", text("Komplete Audio 6 MK2")),
            ("connected", JsonValue::Bool(true)),
            ("is_configured", JsonValue::Bool(true)),
        ]),
        obj(vec![
            ("device_id", text("raw:IAC Driver Bus 1")),
            ("port_name", text("IAC Driver Bus 1")),
            ("connected", JsonValue::Bool(true)),
            ("is_configured", JsonValue::Bool(false)),
        ]),
        obj(vec![
            ("device_id", text("pads")),
            ("port_name", text("Maschine Mikro MK3 MIDI")),
            ("connected", JsonValue::Bool(true)),
            ("is_configured", JsonValue::Bool(true)),
        ]),
    ]
}

fn no_filter_returns_all() {
    let devs = devices_fixture();
    let out = filter_bindings(&devs, None, false);
    assert_eq!(out.len(), 3);
}

fn alias_matches_exactly_one() {
    let devs = devices_fixture();
    let out = filter_bindings(&devs, Some("fcb"), false);
    assert_eq!(out.len(), 1);
    assert_eq!(out[0].get("device_id").and_then(|v| v.as_str()), Some("fcb"));
}

fn alias_no_match_returns_empty() {
    let devs = devices_fixture();
    let out = filter_bindings(&devs, Some("nonexistent"), false);
    assert!(out.is_empty());
}

fn unbound_only_drops_configured() {
    let devs = devices_fixture();
    let out = filter_bindings(&devs, None, true);
    assert_eq!(out.len(), 1);
    assert_eq!(
        out[0].get("device_id").and_then(|v| v.as_str()),
        Some("raw:IAC Driver Bus 1")
    );
    assert_eq!(out[0].get("is_configured").and_then(|v| v.as_bool()), Some(false));
}

fn alias_and_unbound_compose() {
    let devs = devices_fixture();
    let out = filter_bindings(&devs, Some("fcb"), true);
    assert!(out.is_empty());
}

fn missing_is_configured_is_false() {
    let devs = vec![obj(vec![
        ("device_id", text("legacy")),
        ("port_name", text("Some Port")),
        ("connected", JsonValue::Bool(true)),
    ])];
    let out = filter_bindings(&devs, None, true);
    assert_eq!(out.len(), 1, "missing is_configured should default to opportunistic");
}

fn alias_matches_raw_prefix() {
    let devs = devices_fixture();
    let out = filter_bindings(&devs, Some("raw:IAC Driver Bus 1"), false);
    assert_eq!(out.len(), 1);
    assert_eq!(
        out[0].get("device_id").and_then(|v| v.as_str()),
        Some("raw:IAC Driver Bus 1")
    );
    assert_eq!(out[0].get("is_configured").and_then(|v| v.as_bool()), Some(false));
}

#[test]
fn tests_test_bindings_filter_no_filter_returns_all() {
    no_filter_returns_all();
}

#[test]
fn conductorctl_test_bindings_filter_no_filter_returns_all() {
    no_filter_returns_all();
}

#[test]
fn tests_test_bindings_filter_alias_matches_exactly_one() {
    alias_matches_exactly_one();
}

#[test]
fn conductorctl_test_bindings_filter_alias_matches_exactly_one() {
    alias_matches_exactly_one();
}

#[test]
fn tests_test_bindings_filter_alias_no_match_returns_empty() {
    alias_no_match_returns_empty();
}

#[test]
fn conductorctl_test_bindings_filter_alias_no_match_returns_empty() {
    alias_no_match_returns_empty();
}

#[test]
fn tests_test_bindings_filter_unbound_only_drops_configured() {
    unbound_only_drops_configured();
}

#[test]
fn conductorctl_test_bindings_filter_unbound_only_drops_configured() {
    unbound_only_drops_configured();
}

#[test]
fn tests_test_bindings_filter_alias_and_unbound_compose() {
    alias_and_unbound_compose();
}

#[test]
fn conductorctl_test_bindings_filter_alias_and_unbound_compose() {
    alias_and_unbound_compose();
}

#[test]
fn tests_test_bindings_filter_treats_missing_is_configured_as_false() {
    missing_is_configured_is_false();
}

#[test]
fn conductorctl_test_bindings_filter_treats_missing_is_configured_as_false() {
    missing_is_configured_is_false();
}

#[test]
fn tests_test_bindings_filter_alias_matches_raw_prefix_opportunistic() {
    alias_matches_raw_prefix();
}

#[test]
fn conductorctl_test_bindings_filter_alias_matches_raw_prefix_opportunistic() {
    alias_matches_raw_prefix();
}

// ─── check_ipc_response ───

fn error_response(code: u16, msg: &str) -> IpcResponse {
    IpcResponse {
        id: "test".to_string(),
        status: ResponseStatus::Error,
        data: None,
        error: Some(ErrorDetails { code, message: msg.to_string(), details: None }),
    }
}

fn success_response() -> IpcResponse {
    IpcResponse {
        id: "test".to_string(),
        status: ResponseStatus::Success,
        data: Some(obj(vec![("state_generation", num(5))])),
        error: None,
    }
}

fn returns_err_on_daemon_error() {
    let resp = error_response(1004, "rollback unsupported");
    let result = check_ipc_response(&resp, "rollback");
    assert!(result.is_err(), "daemon error response MUST yield Err so process exits non-zero; got Ok");
    let err_msg = format!("{:#}", result.unwrap_err());
    assert!(err_msg.contains("rollback failed"), "ctx should be in error message; got: {err_msg}");
    assert!(err_msg.contains("rollback unsupported"), "daemon message should propagate; got: {err_msg}");
    assert!(err_msg.contains("1004"), "daemon error code should propagate; got: {err_msg}");
}

fn returns_ok_on_success() {
    let resp = success_response();
    assert!(check_ipc_response(&resp, "rollback").is_ok());
}

fn err_when_error_field_set() {
    let mut resp = success_response();
    resp.error = Some(ErrorDetails { code: 5005, message: "something is wrong".to_string(), details: None });
    assert!(
        check_ipc_response(&resp, "rollback").is_err(),
        "defensive: error field set MUST yield Err regardless of status"
    );
}

fn propagates_led_and_plugin_errors() {
    for ctx in ["Set LED scheme", "Set LED brightness", "Turn off LEDs", "Enable plugin", "Disable plugin"] {
        let resp = error_response(5005, "daemon rejected request");
        let result = check_ipc_response(&resp, ctx);
        assert!(result.is_err(), "{ctx}: a daemon error response MUST yield Err");
        let msg = format!("{:#}", result.unwrap_err());
        assert!(
            msg.contains(ctx) && msg.contains("daemon rejected request"),
            "{ctx}: error must carry the context and daemon message; got: {msg}"
        );
    }
}

#[test]
fn tests_check_ipc_response_returns_err_on_daemon_error() {
    returns_err_on_daemon_error();
}

#[test]
fn conductorctl_check_ipc_response_returns_err_on_daemon_error() {
    returns_err_on_daemon_error();
}

#[test]
fn tests_check_ipc_response_returns_ok_on_success() {
    returns_ok_on_success();
}

#[test]
fn conductorctl_check_ipc_response_returns_ok_on_success() {
    returns_ok_on_success();
}

#[test]
fn tests_check_ipc_response_returns_err_when_error_field_set_despite_success_status() {
    err_when_error_field_set();
}

#[test]
fn conductorctl_check_ipc_response_returns_err_when_error_field_set_despite_success_status() {
    err_when_error_field_set();
}

#[test]
fn tests_check_ipc_response_propagates_led_and_plugin_errors() {
    propagates_led_and_plugin_errors();
}

#[test]
fn conductorctl_check_ipc_response_propagates_led_and_plugin_errors() {
    propagates_led_and_plugin_errors();
}

#[test]
fn check_ipc_response_message_is_exact() {
    let resp = error_response(1004, "rollback unsupported");
    assert_eq!(
        check_ipc_response(&resp, "rollback").unwrap_err(),
        "rollback failed: rollback unsupported (code 1004)"
    );
    let resp = IpcResponse { id: "x".to_string(), status: ResponseStatus::Error, data: None, error: None };
    assert_eq!(check_ipc_response(&resp, "config drift").unwrap_err(), "config drift failed: unknown error");
}

// ─── profile names ───

fn rejects_empty() {
    assert!(validate_profile_name("").is_err());
    assert!(validate_profile_name("   ").is_err());
}

fn rejects_path_traversal() {
    assert!(validate_profile_name("../evil").is_err());
    assert!(validate_profile_name("foo/bar").is_err());
    assert!(validate_profile_name("foo\\bar").is_err());
    assert!(validate_profile_name("..").is_err());
}

fn rejects_long_names() {
    let long_name = "a".repeat(65);
    assert!(validate_profile_name(&long_name).is_err());
}

fn rejects_special_chars() {
    assert!(validate_profile_name("foo@bar").is_err());
    assert!(validate_profile_name("foo!bar").is_err());
    assert!(validate_profile_name("foo$bar").is_err());
}

fn accepts_valid() {
    assert!(validate_profile_name("my-profile").is_ok());
    assert!(validate_profile_name("My Profile").is_ok());
    assert!(validate_profile_name("profile_123").is_ok());
    assert!(validate_profile_name("DAW").is_ok());
}

#[test]
fn tests_test_validate_profile_name_rejects_empty() {
    rejects_empty();
}

#[test]
fn conductorctl_test_validate_profile_name_rejects_empty() {
    rejects_empty();
}

#[test]
fn tests_test_validate_profile_name_rejects_path_traversal() {
    rejects_path_traversal();
}

#[test]
fn conductorctl_test_validate_profile_name_rejects_path_traversal() {
    rejects_path_traversal();
}

#[test]
fn tests_test_validate_profile_name_rejects_long_names() {
    rejects_long_names();
}

#[test]
fn conductorctl_test_validate_profile_name_rejects_long_names() {
    rejects_long_names();
}

#[test]
fn tests_test_validate_profile_name_rejects_special_chars() {
    rejects_special_chars();
}

#[test]
fn conductorctl_test_validate_profile_name_rejects_special_chars() {
    rejects_special_chars();
}

#[test]
fn tests_test_validate_profile_name_accepts_valid() {
    accepts_valid();
}

#[test]
fn conductorctl_test_validate_profile_name_accepts_valid() {
    accepts_valid();
}

#[test]
fn profile_name_errors_come_in_order() {
    assert_eq!(validate_profile_name("").unwrap_err(), "Profile name cannot be empty");
    assert_eq!(
        validate_profile_name(&"é".repeat(33)).unwrap_err(),
        "Profile name too long (max 64 characters)"
    );
    assert!(validate_profile_name(&"é".repeat(32)).is_ok());
    assert_eq!(validate_profile_name("a..b").unwrap_err(), "Profile name contains invalid characters");
    assert_eq!(
        validate_profile_name("a.b").unwrap_err(),
        "Profile name may only contain alphanumeric characters, hyphens, underscores, and spaces"
    );
}

// ─── numbers and durations ───

#[test]
fn format_number_groups_thousands() {
    assert_eq!(format_number(0), "0");
    assert_eq!(format_number(999), "999");
    assert_eq!(format_number(1000), "1,000");
    assert_eq!(format_number(1234567), "1,234,567");
    assert_eq!(format_number(1000001), "1,000,001");
    assert_eq!(format_number(u64::MAX), "18,446,744,073,709,551,615");
}

#[test]
fn format_duration_drops_leading_zero_units() {
    assert_eq!(format_duration(0), "0s");
    assert_eq!(format_duration(59), "59s");
    assert_eq!(format_duration(61), "1m 1s");
    assert_eq!(format_duration(3600), "1h 0m 0s");
    assert_eq!(format_duration(90061), "1d 1h 1m 1s");
}
