use conductor_tools::ctl_audit::{
    audit_line, audit_stream_step, empty_backlog_message, migrate_config_requires_routing,
    parse_audit_tier, register_outcome_words, require_absolute_exe_path, resolve_migrate_config_path,
    revoke_needs_literal_retry, save_path_refusal, tier_name, AuditRiskTier, SeenIds, StreamAction,
};
use conductor_tools::ctl_profile::{
    check_led_brightness, confirms_delete, mode_status_fields, plugin_info_error, plugin_name_list,
    profile_file_content, profile_list_line, profile_modes, profiles_dir, resolve_profile_path,
    sort_profiles, ProfileFile,
};
use conductor_tools::json::{JsonField, JsonNumber, JsonValue};

fn from_serde(v: &serde_json::Value) -> JsonValue {
    match v {
        serde_json::Value::Null => JsonValue::Null,
        serde_json::Value::Bool(b) => JsonValue::Bool(*b),
        serde_json::Value::Number(n) => JsonValue::Number(JsonNumber {
            as_u64: n.as_u64(),
            as_i64: n.as_i64(),
            as_f64_to_u64: n.as_f64().map(|f| f as u64),
            text: n.to_string(),
        }),
        serde_json::Value::String(s) => JsonValue::Str(s.clone()),
        serde_json::Value::Array(a) => JsonValue::Array(a.iter().map(from_serde).collect()),
        serde_json::Value::Object(m) => JsonValue::Object(
            m.iter()
                .map(|(k, v)| JsonField { key: k.clone(), value: from_serde(v) })
                .collect(),
        ),
    }
}

fn parse(text: &str) -> JsonValue {
    from_serde(&serde_json::from_str::<serde_json::Value>(text).unwrap())
}

fn config_dir() -> String {
    dirs::config_dir().unwrap().to_str().unwrap().to_string()
}

fn check_resolve_profile_path_name() {
    let path = resolve_profile_path("gaming", Some(&config_dir())).unwrap();
    let expected = dirs::config_dir().unwrap().join("conductor").join("profiles").join("gaming.toml");
    assert_eq!(std::path::PathBuf::from(path), expected);
}

#[test]
fn conductorctl_test_resolve_profile_path_name() {
    check_resolve_profile_path_name();
}

#[test]
fn tests_test_resolve_profile_path_name() {
    check_resolve_profile_path_name();
}

fn check_path_like(arg: &str) {
    assert_eq!(resolve_profile_path(arg, Some("/cfg")).unwrap(), arg);
}

#[test]
fn conductorctl_test_resolve_profile_path_absolute() {
    check_path_like("/tmp/my-profile.toml");
}

#[test]
fn tests_test_resolve_profile_path_absolute() {
    check_path_like("/tmp/my-profile.toml");
}

#[test]
fn conductorctl_test_resolve_profile_path_relative_toml() {
    check_path_like("my-profile.toml");
}

#[test]
fn tests_test_resolve_profile_path_relative_toml() {
    check_path_like("my-profile.toml");
}

#[test]
fn conductorctl_test_resolve_profile_path_with_slash() {
    check_path_like("./profiles/test");
}

#[test]
fn tests_test_resolve_profile_path_with_slash() {
    check_path_like("./profiles/test");
}

#[test]
fn profile_names_are_validated_before_placing() {
    assert_eq!(resolve_profile_path("bad*name", Some("/cfg")).unwrap_err(),
        "Profile name may only contain alphanumeric characters, hyphens, underscores, and spaces");
    assert_eq!(resolve_profile_path("gaming", None).unwrap_err(), "Could not determine config directory");
    assert_eq!(profiles_dir("/cfg"), "/cfg/conductor/profiles");
}

fn check_migrate_default() {
    let resolved = resolve_migrate_config_path(None, Some(&config_dir())).unwrap();
    let expected = dirs::config_dir().unwrap().join("conductor").join("config.toml");
    assert_eq!(std::path::PathBuf::from(&resolved), expected);
    if let Some(home) = dirs::home_dir() {
        assert_ne!(std::path::PathBuf::from(&resolved), home.join(".conductor").join("config.toml"));
    }
}

#[test]
fn conductorctl_migrate_config_default_path_uses_config_dir_not_dot_conductor() {
    check_migrate_default();
}

#[test]
fn tests_migrate_config_default_path_uses_config_dir_not_dot_conductor() {
    check_migrate_default();
}

fn check_migrate_explicit() {
    let resolved = resolve_migrate_config_path(Some("/tmp/custom.toml"), Some(&config_dir())).unwrap();
    assert_eq!(resolved, "/tmp/custom.toml");
}

#[test]
fn conductorctl_migrate_config_explicit_path_is_passed_through() {
    check_migrate_explicit();
}

#[test]
fn tests_migrate_config_explicit_path_is_passed_through() {
    check_migrate_explicit();
}

#[test]
fn migrate_without_config_dir_fails() {
    assert_eq!(resolve_migrate_config_path(None, None).unwrap_err(), "Could not determine config directory");
    assert!(migrate_config_requires_routing().starts_with("migrate-config now supports only --routing"));
}

fn check_profile_create_with_apps() {
    let apps = vec!["com.apple.Logic".to_string(), "com.ableton.Live".to_string()];
    let modes = profile_modes(&apps);
    assert_eq!(modes.len(), 2);
    assert_eq!(modes[0].name, "com.apple.Logic");
    assert_eq!(modes[1].name, "com.ableton.Live");
    assert!(modes.iter().all(|m| m.color.is_none()));
}

#[test]
fn conductorctl_test_profile_create_with_apps_generates_modes() {
    check_profile_create_with_apps();
}

#[test]
fn tests_test_profile_create_with_apps_generates_modes() {
    check_profile_create_with_apps();
}

#[test]
fn profile_without_apps_gets_a_default_mode() {
    let modes = profile_modes(&vec![]);
    assert_eq!(modes.len(), 1);
    assert_eq!(modes[0].name, "Default");
    assert_eq!(modes[0].color.as_deref(), Some("blue"));
    assert_eq!(
        profile_file_content("gaming", "x = 1\n"),
        "# Conductor profile: gaming\n# Created by conductorctl\n\nx = 1\n"
    );
    assert!(confirms_delete(" Y\n"));
    assert!(!confirms_delete("yes"));
}

#[test]
fn profile_list_is_sorted_by_name() {
    let files = vec![
        ProfileFile { name: "zeta".to_string(), size: 1 },
        ProfileFile { name: "alpha".to_string(), size: 20 },
        ProfileFile { name: "Beta".to_string(), size: 3 },
    ];
    let sorted = sort_profiles(files);
    let names: Vec<&str> = sorted.iter().map(|f| f.name.as_str()).collect();
    assert_eq!(names, vec!["Beta", "alpha", "zeta"]);
    assert_eq!(profile_list_line(&sorted[1]), "  alpha (20 bytes)");
}

#[test]
fn mode_and_plugin_fields() {
    let (mode, origin) = mode_status_fields(&parse(r#"{"mode": "Live", "locked": true}"#));
    assert_eq!(mode, "Live");
    assert_eq!(origin.as_deref(), Some("?"));
    let (mode, origin) = mode_status_fields(&parse(r#"{"locked": false, "lock_origin": "cli"}"#));
    assert_eq!(mode, "?");
    assert_eq!(origin, None);
    assert_eq!(check_led_brightness(127), Ok(()));
    assert_eq!(check_led_brightness(128).unwrap_err(), "Brightness must be 0-127, got 128");
    let names = plugin_name_list(&parse(r#"{"plugins": ["a", 3, "c"]}"#), "plugins").unwrap();
    assert_eq!(names, vec!["a", "?", "c"]);
    assert_eq!(plugin_name_list(&parse(r#"{"plugins": "a"}"#), "plugins"), None);
    assert_eq!(plugin_info_error("x", "gone"), "Plugin 'x': gone");
}

#[test]
fn audit_tiers_round_trip() {
    for t in [AuditRiskTier::ReadOnly, AuditRiskTier::Stateful, AuditRiskTier::ConfigChange, AuditRiskTier::HardwareIO] {
        assert_eq!(parse_audit_tier(tier_name(t)), Ok(t));
    }
    assert_eq!(parse_audit_tier("HardwareIO"), Ok(AuditRiskTier::HardwareIO));
    assert!(parse_audit_tier("root").unwrap_err().starts_with("invalid tier 'root' — expected one of"));
}

#[test]
fn audit_stream_skips_each_backlog_id_once() {
    let mut seen = SeenIds::new();
    seen.insert("a");
    seen.insert("b");
    seen.insert("a");
    assert!(matches!(audit_stream_step(&parse(r#"{"id": "a"}"#), &mut seen, 20), StreamAction::Duplicate));
    assert!(matches!(audit_stream_step(&parse(r#"{"id": "a"}"#), &mut seen, 20), StreamAction::Show));
    assert!(matches!(audit_stream_step(&parse(r#"{"id": "c"}"#), &mut seen, 20), StreamAction::Show));
    match audit_stream_step(&parse(r#"{"lagged": 7}"#), &mut seen, 20) {
        StreamAction::Lagged(m) => assert_eq!(
            m,
            "⚠ audit stream lagged by 7 events — re-run `conductorctl audit tail --last 20` to backfill"
        ),
        _ => panic!("expected a lag warning"),
    }
    assert!(matches!(audit_stream_step(&parse(r#"{"id": "b"}"#), &mut seen, 20), StreamAction::Duplicate));
    assert!(seen.remove("zz") == false);
}

#[test]
fn audit_lines() {
    let e = parse(
        r#"{"created_at": 0, "event_type": "tool_denied", "tool_name": "midi_send", "error_message": "nope", "user_context": {"uid": 501}}"#,
    );
    let line = audit_line(&e);
    assert_eq!(line.timestamp, "1970-01-01 00:00:00");
    assert!(line.is_denial);
    assert_eq!(line.tool, "midi_send");
    assert_eq!(line.reason.as_deref(), Some("nope"));
    assert_eq!(line.caller.as_deref(), Some("[uid=501]"));
    let line = audit_line(&parse(r#"{"created_at": 86400000, "user_context": {"client_id": "gui", "uid": 1}}"#));
    assert_eq!(line.timestamp, "1970-01-02 00:00:00");
    assert_eq!(line.event_type, "unknown");
    assert!(!line.is_denial);
    assert_eq!(line.tool, "-");
    assert_eq!(line.caller.as_deref(), Some("[gui]"));
    assert_eq!(empty_backlog_message(true), "(no denial entries in the audit log yet)");
}

#[test]
fn listener_admin_checks() {
    assert_eq!(require_absolute_exe_path("/usr/bin/x"), Ok(()));
    assert_eq!(
        require_absolute_exe_path("x").unwrap_err(),
        "--exe-path must be an absolute path (got: x)"
    );
    assert_eq!(register_outcome_words(true), ("Updated", "updated"));
    assert_eq!(register_outcome_words(false), ("Registered", "created"));
    assert!(revoke_needs_literal_retry(false, "/a/b", "a/b"));
    assert!(!revoke_needs_literal_retry(true, "/a/b", "a/b"));
    assert!(!revoke_needs_literal_retry(false, "a", "a"));
    assert!(save_path_refusal("c.toml").ends_with("`conductorctl config import c.toml`"));
}

#[test]
fn profile_sort_keeps_equal_names_in_order() {
    let files = vec![
        ProfileFile { name: "b".to_string(), size: 1 },
        ProfileFile { name: "a".to_string(), size: 2 },
        ProfileFile { name: "b".to_string(), size: 3 },
        ProfileFile { name: "a".to_string(), size: 4 },
    ];
    let sizes: Vec<u64> = sort_profiles(files).iter().map(|f| f.size).collect();
    assert_eq!(sizes, vec![2, 4, 1, 3]);
}
