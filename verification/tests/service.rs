use conductor_tools::service::{
    daemon_binary_candidates, find_daemon_binary, generate_plist, get_binary_install_path, get_log_dir,
    get_plist_path, get_template_plist_path, load_error, log_file_names, path_join, replace_all,
    service_preflight, service_status_text, start_timeout_error, unload_warning, LoadKind, Preflight,
    ServiceOp, ServiceState,
};

fn preflight(op: ServiceOp, is_macos: bool, installed: bool, force: bool) -> (u8, String) {
    match service_preflight(op, is_macos, installed, force) {
        Preflight::Proceed => (0, String::new()),
        Preflight::Fail(m) => (1, m),
        Preflight::AlreadyInstalled => (2, String::new()),
        Preflight::NotInstalled => (3, String::new()),
    }
}

#[test]
fn paths_join_like_pathbuf() {
    assert_eq!(path_join("/Users/ann", "Library"), "/Users/ann/Library");
    assert_eq!(path_join("/Users/ann/", "Library"), "/Users/ann/Library");
    assert_eq!(path_join("/Users/ann", "/abs"), "/abs");
    assert_eq!(path_join("", "rel"), "rel");
    assert_eq!(get_plist_path("/Users/ann"), "/Users/ann/Library/LaunchAgents/media.monstrous.conductor.plist");
    assert_eq!(get_log_dir("/Users/ann"), "/Users/ann/Library/Logs");
    assert_eq!(get_binary_install_path(), "/usr/local/bin/conductor");
    assert_eq!(get_template_plist_path("/src/daemon"), "/src/daemon/launchd/media.monstrous.conductor.plist");
    assert_eq!(log_file_names(), vec!["conductor.log", "conductor.error.log"]);
}

#[test]
fn daemon_binary_is_the_first_that_exists() {
    let c = daemon_binary_candidates();
    assert_eq!(c, vec!["/usr/local/bin/conductor", "target/release/conductor", "target/debug/conductor"]);
    assert_eq!(find_daemon_binary(&vec![false, true, true]), Ok(1));
    assert!(find_daemon_binary(&vec![false, false, false]).unwrap_err().starts_with("Could not find daemon binary"));
}

#[test]
fn plist_substitutes_binary_and_user() {
    let t = "<string>/usr/local/bin/conductor</string><string>/Users/USERNAME/Library/Logs</string>/usr/local/bin/conductor";
    assert_eq!(
        generate_plist(t, "/opt/c", "ann"),
        "<string>/opt/c</string><string>/Users/ann/Library/Logs</string>/opt/c"
    );
    assert_eq!(replace_all("aaa", "aa", "b"), "ba");
    assert_eq!(replace_all("abc", "x", "y"), "abc");
}

#[test]
fn preflight_per_operation() {
    assert_eq!(preflight(ServiceOp::Install, false, false, false).0, 1);
    assert_eq!(
        preflight(ServiceOp::Install, false, false, false).1,
        "Service installation is currently only supported on macOS"
    );
    assert_eq!(preflight(ServiceOp::Status, false, true, false).1, "Service management is currently only supported on macOS");
    assert_eq!(preflight(ServiceOp::Install, true, true, false).0, 2);
    assert_eq!(preflight(ServiceOp::Install, true, true, true).0, 0);
    assert_eq!(preflight(ServiceOp::Uninstall, true, false, false).0, 3);
    assert_eq!(
        preflight(ServiceOp::Start, true, false, false),
        (1, "Service not installed. Run 'conductorctl install' first.".to_string())
    );
    assert_eq!(preflight(ServiceOp::Disable, true, false, false), (1, "Service not installed".to_string()));
    assert_eq!(preflight(ServiceOp::Stop, true, true, false).0, 0);
}

#[test]
fn launchctl_outcomes() {
    assert_eq!(load_error(LoadKind::Install, true, "x"), None);
    assert_eq!(load_error(LoadKind::Install, false, "boom"), Some("Failed to load service: boom".to_string()));
    assert_eq!(load_error(LoadKind::Start, false, "service Already loaded"), None);
    assert_eq!(load_error(LoadKind::Enable, false, "nope"), Some("Failed to enable service: nope".to_string()));
    assert_eq!(unload_warning(false, "Could not find specified service"), None);
    assert_eq!(unload_warning(false, "err"), Some("Warning: err".to_string()));
    assert_eq!(start_timeout_error(10), "Daemon did not start within 10 seconds. Check logs for errors.");
}

#[test]
fn status_screen_texts() {
    let (s, label, hint) = service_status_text(true, true);
    assert_eq!(s, ServiceState::Loaded);
    assert_eq!(label, "Installed and Loaded");
    assert_eq!(hint, "Service is loaded (enabled)");
    let (s, _, hint) = service_status_text(true, false);
    assert_eq!(s, ServiceState::InstalledNotLoaded);
    assert_eq!(hint, "Service is not loaded. Use 'conductorctl enable' or 'conductorctl start'.");
    let (s, label, _) = service_status_text(false, false);
    assert_eq!(s, ServiceState::NotInstalled);
    assert_eq!(label, "Not Installed");
}
