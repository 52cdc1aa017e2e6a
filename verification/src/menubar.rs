//! The menu-bar tray: which icon a daemon state lights, the status text,
//! and how Quit and Reload wind down.
use vstd::prelude::*;
use crate::json::{JsonValue, spec_get, str_field, opt_f64_to_u64, json_text_value, parse_json_text};
use crate::text::{str_eq, append_dec, dec};

verus! {

/// The tray icons.
#[derive(Clone, Copy, Debug, PartialEq, Eq, Structural)]
pub enum IconState {
    Running,
    Stopped,
    Error,
}

pub open spec fn icon_spec(state: Seq<char>) -> IconState {
    if state == "Running"@ {
        IconState::Running
    } else if state == "Stopped"@ || state == "Stopping"@ {
        IconState::Stopped
    } else {
        IconState::Error
    }
}

/// Map an EXACT daemon `lifecycle_state` string to a tray icon: only
/// `"Running"` lights the healthy icon, `"Stopped"`/`"Stopping"` the stopped
/// one, and every other state the error icon.
pub fn icon_for_state(state: &str) -> (r: IconState)
    ensures
        r == icon_spec(state@),
        r == IconState::Running <==> state@ == "Running"@,
{
    proof {
        reveal_strlit("Running");
        reveal_strlit("Stopped");
        reveal_strlit("Stopping");
        assert("Stopped"@[2] != "Running"@[2]);
        assert("Stopping"@[2] != "Running"@[2]);
    }
    if str_eq(state, "Running") {
        IconState::Running
    } else if str_eq(state, "Stopped") || str_eq(state, "Stopping") {
        IconState::Stopped
    } else {
        IconState::Error
    }
}

/// Uptime in whole seconds as `"{h}h {m}m"`, `"{m}m"` or `"{s}s"`.
pub open spec fn uptime_spec(secs: nat) -> Seq<char> {
    let hours = secs / 3600;
    let minutes = (secs % 3600) / 60;
    if hours > 0 {
        dec(hours) + "h "@ + dec(minutes) + "m"@
    } else if minutes > 0 {
        dec(minutes) + "m"@
    } else {
        dec(secs) + "s"@
    }
}

/// Format a duration (whole seconds) in human-readable form.
pub fn format_duration(secs: u64) -> (r: String)
    ensures
        r@ == uptime_spec(secs as nat),
{
    let hours = secs / 3600;
    let minutes = (secs % 3600) / 60;
    let mut s = String::new();
    if hours > 0 {
        append_dec(&mut s, hours);
        s.append("h ");
        append_dec(&mut s, minutes);
        s.append("m");
    } else if minutes > 0 {
        append_dec(&mut s, minutes);
        s.append("m");
    } else {
        append_dec(&mut s, secs);
        s.append("s");
    }
    proof {
        assert(s@ =~= uptime_spec(secs as nat));
    }
    s
}

/// The menu's status text and the icon it maps to.
pub struct MenuStatus {
    pub text: String,
    pub icon: IconState,
}

pub open spec fn status_spec(response: Option<JsonValue>) -> (Seq<char>, IconState) {
    match response {
        Some(v) => match spec_get(v, "daemon"@) {
            Some(daemon) => {
                let state = match str_field(daemon, "lifecycle_state"@) {
                    Some(s) => s,
                    None => "Unknown"@,
                };
                let uptime = match opt_f64_to_u64(spec_get(daemon, "uptime_seconds"@)) {
                    Some(u) => uptime_spec(u as nat),
                    None => "Unknown"@,
                };
                ("Conductor: "@ + state + "\nUptime: "@ + uptime, icon_spec(state))
            },
            None => ("Conductor: Unknown (unexpected status payload)"@, IconState::Error),
        },
        None => ("Conductor: Unknown (unexpected status payload)"@, IconState::Error),
    }
}

/// Parse a status reply (`None` when it was not JSON) into display text and
/// icon. A reply without the `daemon` object is an unexpected payload,
/// reported as such with the error icon, never as a running daemon.
pub fn extract_status(response: Option<&JsonValue>) -> (r: MenuStatus)
    ensures
        (r.text@, r.icon) == status_spec(match response {
            Some(v) => Some(*v),
            None => None,
        }),
{
    if let Some(value) = response {
        if let Some(daemon) = value.get("daemon") {
            let state = match daemon.get_str("lifecycle_state") {
                Some(s) => s,
                None => "Unknown",
            };
            let uptime = match daemon.get("uptime_seconds") {
                Some(u) => match u {
                    JsonValue::Number(n) => match n.as_f64_to_u64 {
                        Some(secs) => format_duration(secs),
                        None => String::from_str("Unknown"),
                    },
                    _ => String::from_str("Unknown"),
                },
                None => String::from_str("Unknown"),
            };
            let mut text = String::from_str("Conductor: ");
            text.append(state);
            text.append("\nUptime: ");
            text.append(uptime.as_str());
            return MenuStatus { text, icon: icon_for_state(state) };
        }
    }
    MenuStatus { text: String::from_str("Conductor: Unknown (unexpected status payload)"), icon: IconState::Error }
}

/// The status of a reply as the daemon sent it: read as JSON (a reply that
/// is not JSON is an unexpected payload), then parsed as `extract_status`
/// does.
pub fn status_of_reply(response: &str) -> (r: MenuStatus)
    ensures
        (r.text@, r.icon) == status_spec(match json_text_value(response@) {
            Ok(v) => Some(v),
            Err(_) => None,
        }),
{
    match parse_json_text(response) {
        Ok(v) => extract_status(Some(&v)),
        Err(_) => extract_status(None),
    }
}

/// A status reply that is not JSON, or lacks the `daemon` object, never
/// shows the running icon.
pub proof fn unexpected_payload_is_never_running(response: Option<JsonValue>)
    requires
        response is None || spec_get(response->0, "daemon"@) is None,
    ensures
        status_spec(response).1 == IconState::Error,
{
}

/// How the tray winds down after asking the daemon to stop on Quit. Both
/// variants end the process; a stop that went through first gives the daemon
/// a short drain.
#[derive(Debug, PartialEq, Eq)]
pub enum QuitAction {
    /// Daemon acknowledged Stop; give it `drain_ms` to wind down, then exit.
    DrainThenExit { status: String, drain_ms: u64 },
    /// Stop failed; show the error and exit at once.
    ExitImmediately { status: String },
}

/// Decide the Quit wind-down from the daemon's Stop reply.
pub fn plan_quit(stop_result: Result<String, String>) -> (r: QuitAction)
    ensures
        stop_result is Ok ==> (r matches QuitAction::DrainThenExit { status, drain_ms } && status@
            == "Conductor: Stopping..."@ && drain_ms == 500),
        stop_result matches Err(e) ==> (r matches QuitAction::ExitImmediately { status } && status@
            == "Error: "@ + e@ + " (exiting anyway)"@),
{
    match stop_result {
        Ok(_) => QuitAction::DrainThenExit { status: String::from_str("Conductor: Stopping..."), drain_ms: 500 },
        Err(e) => {
            let mut status = String::from_str("Error: ");
            status.append(e.as_str());
            status.append(" (exiting anyway)");
            QuitAction::ExitImmediately { status }
        },
    }
}

/// The status text after a Reload request, and the icon to switch to (the
/// error icon on failure; otherwise the next status check sets it).
pub fn reload_outcome(result: &Result<String, String>) -> (r: (String, Option<IconState>))
    ensures
        result is Ok ==> r.0@ == "Conductor: Running"@ && r.1 is None,
        result matches Err(e) ==> r.0@ == "Conductor: Error - "@ + e@ && r.1 == Some(IconState::Error),
{
    match result {
        Ok(_) => (String::from_str("Conductor: Running"), None),
        Err(e) => {
            let mut s = String::from_str("Conductor: Error - ");
            s.append(e.as_str());
            (s, Some(IconState::Error))
        },
    }
}

/// The error an IPC round-trip that outlived its deadline turns into.
pub fn ipc_timeout_message(timeout_secs: u64) -> (r: String)
    ensures
        r@ == "daemon did not respond within "@ + dec(timeout_secs as nat) + "s (not responding)"@,
{
    let mut s = String::from_str("daemon did not respond within ");
    append_dec(&mut s, timeout_secs);
    s.append("s (not responding)");
    s
}

} // verus!
