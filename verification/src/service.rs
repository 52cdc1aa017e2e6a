//! `conductorctl install | uninstall | start | stop | enable | disable |
//! service-status`: where the LaunchAgent and its files live, the plist
//! generated from the template, and the decisions around each `launchctl`
//! call. The file system and `launchctl` themselves are the caller's.
use vstd::prelude::*;
use crate::text::{contains_seq, contains_str, ends_with, starts_with, str_eq, append_dec, dec};

verus! {

// ───────────────────────────── paths ─────────────────────────────

/// `Path::join` for `/`-separated paths: an absolute `rel` replaces `base`;
/// otherwise `rel` is appended after a separator, unless `base` is empty or
/// already ends with one.
pub open spec fn join_spec(base: Seq<char>, rel: Seq<char>) -> Seq<char> {
    if rel.len() > 0 && rel[0] == '/' {
        rel
    } else if base.len() == 0 || base.last() == '/' {
        base + rel
    } else {
        base + "/"@ + rel
    }
}

/// `base.join(rel)`, for `/`-separated paths.
pub fn path_join(base: &str, rel: &str) -> (r: String)
    ensures
        r@ == join_spec(base@, rel@),
{
    if starts_with(rel, "/") {
        proof {
            reveal_strlit("/");
            assert("/"@[0] == '/');
            assert(rel@.subrange(0, 1)[0] == rel@[0]);
            assert(rel@[0] == '/');
        }
        return String::from_str(rel);
    }
    proof {
        reveal_strlit("/");
        if rel@.len() > 0 && rel@[0] == '/' {
            assert(rel@.subrange(0, 1) =~= "/"@);
        }
    }
    let mut s = String::from_str(base);
    let n = base.unicode_len();
    if n == 0 || base.get_char(n - 1) == '/' {
        s.append(rel);
    } else {
        s.append("/");
        s.append(rel);
    }
    s
}

pub open spec fn plist_path_spec(home: Seq<char>) -> Seq<char> {
    join_spec(join_spec(home, "Library/LaunchAgents"@), "media.monstrous.conductor.plist"@)
}

/// `~/Library/LaunchAgents/media.monstrous.conductor.plist`, under the given
/// home directory.
pub fn get_plist_path(home: &str) -> (r: String)
    ensures
        r@ == plist_path_spec(home@),
{
    let dir = path_join(home, "Library/LaunchAgents");
    path_join(dir.as_str(), "media.monstrous.conductor.plist")
}

/// Where `install --install-binary` puts the daemon.
pub fn get_binary_install_path() -> (r: String)
    ensures
        r@ == "/usr/local/bin/conductor"@,
{
    String::from_str("/usr/local/bin/conductor")
}

/// `~/Library/Logs`, under the given home directory.
pub fn get_log_dir(home: &str) -> (r: String)
    ensures
        r@ == join_spec(home@, "Library/Logs"@),
{
    path_join(home, "Library/Logs")
}

/// The template plist of a source tree: `<manifest dir>/launchd/<label>.plist`.
pub fn get_template_plist_path(manifest_dir: &str) -> (r: String)
    ensures
        r@ == join_spec(join_spec(manifest_dir@, "launchd"@), "media.monstrous.conductor.plist"@),
{
    let dir = path_join(manifest_dir, "launchd");
    path_join(dir.as_str(), "media.monstrous.conductor.plist")
}

/// The log files `uninstall --remove-logs` deletes from the log directory.
pub fn log_file_names() -> (r: Vec<&'static str>)
    ensures
        r@.len() == 2,
        r@[0]@ == "conductor.log"@,
        r@[1]@ == "conductor.error.log"@,
{
    let mut v: Vec<&'static str> = Vec::new();
    v.push("conductor.log");
    v.push("conductor.error.log");
    v
}

/// Where `install` looks for the daemon when it does not copy one: the
/// install location, then the release and debug build outputs.
pub fn daemon_binary_candidates() -> (r: Vec<String>)
    ensures
        r@.len() == 3,
        r@[0]@ == "/usr/local/bin/conductor"@,
        r@[1]@ == "target/release/conductor"@,
        r@[2]@ == "target/debug/conductor"@,
{
    let mut v: Vec<String> = Vec::new();
    v.push(get_binary_install_path());
    v.push(String::from_str("target/release/conductor"));
    v.push(String::from_str("target/debug/conductor"));
    v
}

/// The first candidate that exists (`exists[i]` tells whether candidate `i`
/// does), or the error that tells how to get one.
pub fn find_daemon_binary(exists: &Vec<bool>) -> (r: Result<usize, String>)
    ensures
        match r {
            Ok(i) => i < exists@.len() && exists@[i as int] && forall|k: int| 0 <= k < i ==> !exists@[k],
            Err(m) => (forall|k: int| 0 <= k < exists@.len() ==> !exists@[k]) && m@
                == "Could not find daemon binary. Use --install-binary to install it, or build it with 'cargo build --release --bin conductor'"@,
        },
{
    let mut i: usize = 0;
    while i < exists.len()
        invariant
            i <= exists@.len(),
            forall|k: int| 0 <= k < i ==> !exists@[k],
        decreases exists@.len() - i,
    {
        if exists[i] {
            return Ok(i);
        }
        i = i + 1;
    }
    Err(
        String::from_str(
            "Could not find daemon binary. Use --install-binary to install it, or build it with 'cargo build --release --bin conductor'",
        ),
    )
}

// ───────────────────────────── plist ─────────────────────────────

/// `str::replace`: every non-overlapping occurrence of `from`, found from
/// the left, replaced by `to`.
pub open spec fn replace_spec(s: Seq<char>, from: Seq<char>, to: Seq<char>) -> Seq<char>
    recommends
        from.len() > 0,
    decreases s.len(),
{
    if from.len() == 0 || s.len() < from.len() {
        s
    } else if s.take(from.len() as int) == from {
        to + replace_spec(s.skip(from.len() as int), from, to)
    } else {
        seq![s[0]] + replace_spec(s.skip(1), from, to)
    }
}

fn occurs_here(s: &str, from: &str, i: usize) -> (r: bool)
    requires
        i <= s@.len(),
    ensures
        r == (s@.skip(i as int).len() >= from@.len() && s@.skip(i as int).take(from@.len() as int)
            == from@),
{
    let n = s.unicode_len();
    let m = from.unicode_len();
    if n - i < m {
        return false;
    }
    let mut k: usize = 0;
    while k < m
        invariant
            n == s@.len(),
            m == from@.len(),
            i + m <= n,
            k <= m,
            forall|j: int| 0 <= j < k ==> s@[i + j] == from@[j],
        decreases m - k,
    {
        if s.get_char(i + k) != from.get_char(k) {
            proof {
                assert(s@.skip(i as int).take(m as int)[k as int] == s@[i + k]);
            }
            return false;
        }
        k = k + 1;
    }
    proof {
        assert(s@.skip(i as int).take(m as int) =~= from@);
    }
    true
}

/// `s.replace(from, to)` for a non-empty `from`.
pub fn replace_all(s: &str, from: &str, to: &str) -> (r: String)
    requires
        from@.len() > 0,
    ensures
        r@ == replace_spec(s@, from@, to@),
{
    let mut out = String::new();
    let n = s.unicode_len();
    let m = from.unicode_len();
    let mut i: usize = 0;
    proof {
        assert(s@.skip(0) =~= s@);
        assert(out@ + replace_spec(s@, from@, to@) =~= replace_spec(s@, from@, to@));
    }
    while i < n
        invariant
            n == s@.len(),
            m == from@.len(),
            m > 0,
            i <= n,
            out@ + replace_spec(s@.skip(i as int), from@, to@) == replace_spec(s@, from@, to@),
        decreases n - i,
    {
        let ghost rest = s@.skip(i as int);
        if occurs_here(s, from, i) {
            proof {
                assert(rest.skip(m as int) =~= s@.skip(i + m));
                assert(out@ + to@ + replace_spec(s@.skip(i + m), from@, to@) =~= out@ + replace_spec(
                    rest,
                    from@,
                    to@,
                ));
            }
            out.append(to);
            i = i + m;
        } else {
            let c = s.get_char(i);
            proof {
                assert(rest[0] == c);
                assert(rest.skip(1) =~= s@.skip(i + 1));
                if rest.len() < m {
                    assert(replace_spec(rest, from@, to@) == rest);
                    assert(rest =~= seq![c] + rest.skip(1));
                    assert(replace_spec(rest.skip(1), from@, to@) == rest.skip(1));
                }
                assert(out@ + seq![c] + replace_spec(s@.skip(i + 1), from@, to@) =~= out@
                    + replace_spec(rest, from@, to@));
            }
            crate::text::push_char(&mut out, c);
            i = i + 1;
        }
    }
    proof {
        assert(s@.skip(n as int) =~= Seq::<char>::empty());
        assert(out@ =~= replace_spec(s@, from@, to@));
    }
    out
}

pub open spec fn plist_spec(template: Seq<char>, binary_path: Seq<char>, username: Seq<char>) -> Seq<char> {
    replace_spec(
        replace_spec(template, "/usr/local/bin/conductor"@, binary_path),
        "/Users/USERNAME"@,
        "/Users/"@ + username,
    )
}

/// The LaunchAgent plist for a daemon at `binary_path`, run as `username`:
/// the template with its default binary path and its `/Users/USERNAME` home
/// replaced.
pub fn generate_plist(template: &str, binary_path: &str, username: &str) -> (r: String)
    ensures
        r@ == plist_spec(template@, binary_path@, username@),
{
    proof {
        reveal_strlit("/usr/local/bin/conductor");
        reveal_strlit("/Users/USERNAME");
    }
    let step = replace_all(template, "/usr/local/bin/conductor", binary_path);
    let mut home = String::from_str("/Users/");
    home.append(username);
    replace_all(step.as_str(), "/Users/USERNAME", home.as_str())
}

// ───────────────────────────── preflight ─────────────────────────────

/// The service commands.
#[derive(Clone, Copy, Debug, PartialEq, Eq, Structural)]
pub enum ServiceOp {
    Install,
    Uninstall,
    Start,
    Stop,
    Enable,
    Disable,
    Status,
}

/// What a service command does before touching anything.
pub enum Preflight {
    /// Go on.
    Proceed,
    /// Stop with this error.
    Fail(String),
    /// Stop successfully, reporting that the service is already installed.
    AlreadyInstalled,
    /// Stop successfully, reporting that the service is not installed.
    NotInstalled,
}

/// The precondition check of each service command: macOS only; then whether the service
/// must (or must not) already be installed.
pub open spec fn preflight_spec(op: ServiceOp, is_macos: bool, installed: bool, force: bool) -> (int, Seq<
    char,
>) {
    if !is_macos {
        (
            1,
            if op == ServiceOp::Install {
                "Service installation is currently only supported on macOS"@
            } else {
                "Service management is currently only supported on macOS"@
            },
        )
    } else if op == ServiceOp::Install && installed && !force {
        (2, Seq::empty())
    } else if op == ServiceOp::Uninstall && !installed {
        (3, Seq::empty())
    } else if (op == ServiceOp::Start || op == ServiceOp::Enable) && !installed {
        (1, "Service not installed. Run 'conductorctl install' first."@)
    } else if (op == ServiceOp::Stop || op == ServiceOp::Disable) && !installed {
        (1, "Service not installed"@)
    } else {
        (0, Seq::empty())
    }
}

pub open spec fn preflight_view(p: Preflight) -> (int, Seq<char>) {
    match p {
        Preflight::Proceed => (0, Seq::empty()),
        Preflight::Fail(m) => (1, m@),
        Preflight::AlreadyInstalled => (2, Seq::empty()),
        Preflight::NotInstalled => (3, Seq::empty()),
    }
}

/// What each service command may do before touching anything: off macOS
/// every command fails; on macOS `status` always goes on, `install` goes on
/// unless the service is installed (and not forced), in which case it stops
/// as already installed, `uninstall` stops as not installed when it is not,
/// and `start`, `stop`, `enable` and `disable` fail unless the service is
/// installed. So nothing drives a service that is not installed.
pub proof fn service_gate(op: ServiceOp, is_macos: bool, installed: bool, force: bool)
    ensures
        !is_macos ==> preflight_spec(op, is_macos, installed, force).0 == 1,
        is_macos && (op == ServiceOp::Start || op == ServiceOp::Stop || op == ServiceOp::Enable || op
            == ServiceOp::Disable) ==> (preflight_spec(op, is_macos, installed, force).0 == 1 <==> !installed)
            && (preflight_spec(op, is_macos, installed, force).0 == 0 <==> installed),
        is_macos && op == ServiceOp::Status ==> preflight_spec(op, is_macos, installed, force).0 == 0,
        is_macos && op == ServiceOp::Install ==> preflight_spec(op, is_macos, installed, force).0 == if installed
            && !force {
            2int
        } else {
            0int
        },
        is_macos && op == ServiceOp::Uninstall ==> preflight_spec(op, is_macos, installed, force).0 == if installed {
            0int
        } else {
            3int
        },
{
}

/// Decide whether a service command may go on.
pub fn service_preflight(op: ServiceOp, is_macos: bool, installed: bool, force: bool) -> (r: Preflight)
    ensures
        preflight_view(r) == preflight_spec(op, is_macos, installed, force),
{
    if !is_macos {
        return match op {
            ServiceOp::Install => Preflight::Fail(
                String::from_str("Service installation is currently only supported on macOS"),
            ),
            _ => Preflight::Fail(String::from_str("Service management is currently only supported on macOS")),
        };
    }
    match op {
        ServiceOp::Install => if installed && !force {
            Preflight::AlreadyInstalled
        } else {
            Preflight::Proceed
        },
        ServiceOp::Uninstall => if !installed {
            Preflight::NotInstalled
        } else {
            Preflight::Proceed
        },
        ServiceOp::Start | ServiceOp::Enable => if !installed {
            Preflight::Fail(String::from_str("Service not installed. Run 'conductorctl install' first."))
        } else {
            Preflight::Proceed
        },
        ServiceOp::Stop | ServiceOp::Disable => if !installed {
            Preflight::Fail(String::from_str("Service not installed"))
        } else {
            Preflight::Proceed
        },
        ServiceOp::Status => Preflight::Proceed,
    }
}

// ───────────────────────────── launchctl ─────────────────────────────

/// The `launchctl load` calls.
#[derive(Clone, Copy, Debug, PartialEq, Eq, Structural)]
pub enum LoadKind {
    /// `install`: any failure is an error.
    Install,
    /// `start`: an "Already loaded" failure is fine.
    Start,
    /// `enable`: an "Already loaded" failure is fine.
    Enable,
}

pub open spec fn load_error_spec(kind: LoadKind, success: bool, stderr: Seq<char>) -> Option<Seq<char>> {
    if success {
        None
    } else {
        match kind {
            LoadKind::Install => Some("Failed to load service: "@ + stderr),
            LoadKind::Start => if contains_seq(stderr, "Already loaded"@) {
                None
            } else {
                Some("Failed to start service: "@ + stderr)
            },
            LoadKind::Enable => if contains_seq(stderr, "Already loaded"@) {
                None
            } else {
                Some("Failed to enable service: "@ + stderr)
            },
        }
    }
}

/// The error a failed `launchctl load` turns into, if any.
pub fn load_error(kind: LoadKind, success: bool, stderr: &str) -> (r: Option<String>)
    ensures
        match r {
            Some(m) => load_error_spec(kind, success, stderr@) == Some(m@),
            None => load_error_spec(kind, success, stderr@) is None,
        },
{
    if success {
        return None;
    }
    let prefix = match kind {
        LoadKind::Install => "Failed to load service: ",
        LoadKind::Start => {
            if contains_str(stderr, "Already loaded") {
                return None;
            }
            "Failed to start service: "
        },
        LoadKind::Enable => {
            if contains_str(stderr, "Already loaded") {
                return None;
            }
            "Failed to enable service: "
        },
    };
    let mut m = String::from_str(prefix);
    m.append(stderr);
    Some(m)
}

pub open spec fn unload_warning_spec(success: bool, stderr: Seq<char>) -> Option<Seq<char>> {
    if success || contains_seq(stderr, "Could not find specified service"@) {
        None
    } else {
        Some("Warning: "@ + stderr)
    }
}

/// The warning a failed `launchctl unload` prints; a service that was not
/// loaded is no failure.
pub fn unload_warning(success: bool, stderr: &str) -> (r: Option<String>)
    ensures
        match r {
            Some(m) => unload_warning_spec(success, stderr@) == Some(m@),
            None => unload_warning_spec(success, stderr@) is None,
        },
{
    if success || contains_str(stderr, "Could not find specified service") {
        None
    } else {
        let mut m = String::from_str("Warning: ");
        m.append(stderr);
        Some(m)
    }
}

/// The error when the daemon is not up at the end of `start --wait`.
pub fn start_timeout_error(wait_secs: u64) -> (r: String)
    ensures
        r@ == "Daemon did not start within "@ + dec(wait_secs as nat) + " seconds. Check logs for errors."@,
{
    let mut m = String::from_str("Daemon did not start within ");
    append_dec(&mut m, wait_secs);
    m.append(" seconds. Check logs for errors.");
    m
}

// ───────────────────────────── status ─────────────────────────────

/// The service's state on the status screen.
#[derive(Clone, Copy, Debug, PartialEq, Eq, Structural)]
pub enum ServiceState {
    /// Installed and loaded (shown green).
    Loaded,
    /// Installed but not loaded (shown yellow).
    InstalledNotLoaded,
    /// Not installed (shown red).
    NotInstalled,
}

pub open spec fn service_state_spec(installed: bool, loaded: bool) -> ServiceState {
    if installed && loaded {
        ServiceState::Loaded
    } else if installed {
        ServiceState::InstalledNotLoaded
    } else {
        ServiceState::NotInstalled
    }
}

/// The label and closing hint of the status screen.
pub fn service_status_text(installed: bool, loaded: bool) -> (r: (ServiceState, String, String))
    ensures
        r.0 == service_state_spec(installed, loaded),
        r.1@ == match r.0 {
            ServiceState::Loaded => "Installed and Loaded"@,
            ServiceState::InstalledNotLoaded => "Installed but Not Loaded"@,
            ServiceState::NotInstalled => "Not Installed"@,
        },
        r.2@ == if loaded {
            "Service is loaded (enabled)"@
        } else if installed {
            "Service is not loaded. Use 'conductorctl enable' or 'conductorctl start'."@
        } else {
            "Service is not installed. Use 'conductorctl install'."@
        },
{
    let state = if installed && loaded {
        ServiceState::Loaded
    } else if installed {
        ServiceState::InstalledNotLoaded
    } else {
        ServiceState::NotInstalled
    };
    let label = match state {
        ServiceState::Loaded => String::from_str("Installed and Loaded"),
        ServiceState::InstalledNotLoaded => String::from_str("Installed but Not Loaded"),
        ServiceState::NotInstalled => String::from_str("Not Installed"),
    };
    let hint = if loaded {
        String::from_str("Service is loaded (enabled)")
    } else if installed {
        String::from_str("Service is not loaded. Use 'conductorctl enable' or 'conductorctl start'.")
    } else {
        String::from_str("Service is not installed. Use 'conductorctl install'.")
    };
    (state, label, hint)
}


// ───────────────────────────── waiting for the daemon ─────────────────────────────

/// One poll of `start --wait`: the daemon answered, the wait is over, or
/// poll again after half a second.
#[derive(Clone, Copy, Debug, PartialEq, Eq, Structural)]
pub enum StartWait {
    Ready,
    TimedOut,
    PollAgain,
}

/// The decision after a poll made `elapsed_ms` into a wait of `wait_secs`
/// seconds: a running daemon ends the wait; otherwise it goes on while the
/// time is not up.
pub fn start_wait_step(running: bool, elapsed_ms: u64, wait_secs: u64) -> (r: StartWait)
    ensures
        r == if running {
            StartWait::Ready
        } else if elapsed_ms >= wait_secs * 1000 {
            StartWait::TimedOut
        } else {
            StartWait::PollAgain
        },
{
    proof {
        assert(elapsed_ms / 1000 < wait_secs <==> elapsed_ms < wait_secs * 1000) by (nonlinear_arith);
    }
    if running {
        StartWait::Ready
    } else if elapsed_ms / 1000 < wait_secs {
        StartWait::PollAgain
    } else {
        StartWait::TimedOut
    }
}

} // verus!
