//! `conductorctl permissions` and `llm budgets show`: the Input Monitoring
//! grant as the daemon reports it, its JSON fields, the human report, and
//! the table of LLM budget limits.
use vstd::prelude::*;
use crate::json::{JsonValue, bool_field, str_field};
use crate::text::{str_eq, append_dec, dec, pad_right, append_pad_right};
use crate::styled::{
    Span, Style, line_v, lines_v, plain_line, span, span_owned, push_span, push_line, push_plain,
    push_styled,
};

verus! {

// ───────────────────────────── permission status ─────────────────────────────

/// The Input Monitoring grant state.
pub enum PermissionStatus {
    Granted,
    NotGranted,
    /// Not known, with the reason.
    Unknown(String),
    /// No consent gate on this platform.
    NotApplicable,
}

/// The grant state seen with its reason as a character sequence.
pub enum PermissionView {
    Granted,
    NotGranted,
    Unknown(Seq<char>),
    NotApplicable,
}

pub open spec fn perm_v(p: PermissionStatus) -> PermissionView {
    match p {
        PermissionStatus::Granted => PermissionView::Granted,
        PermissionStatus::NotGranted => PermissionView::NotGranted,
        PermissionStatus::Unknown(r) => PermissionView::Unknown(r@),
        PermissionStatus::NotApplicable => PermissionView::NotApplicable,
    }
}

pub open spec fn json_fields_spec(p: PermissionView) -> (Seq<char>, Option<Seq<char>>) {
    match p {
        PermissionView::Granted => ("granted"@, None),
        PermissionView::NotGranted => ("not_granted"@, None),
        PermissionView::Unknown(r) => ("unknown"@, Some(r)),
        PermissionView::NotApplicable => ("not_applicable"@, None),
    }
}

/// `--json` keeps `input_monitoring` to a stable enum (`granted |
/// not_granted | unknown | not_applicable`) and emits the human-readable
/// reason of an unknown state in a separate `detail` field.
pub fn permission_status_json_fields(s: &PermissionStatus) -> (r: (&'static str, Option<String>))
    ensures
        (r.0@, match r.1 {
            Some(d) => Some(d@),
            None => None::<Seq<char>>,
        }) == json_fields_spec(perm_v(*s)),
{
    match s {
        PermissionStatus::Granted => ("granted", None),
        PermissionStatus::NotGranted => ("not_granted", None),
        PermissionStatus::Unknown(reason) => ("unknown", Some(String::from_str(reason.as_str()))),
        PermissionStatus::NotApplicable => ("not_applicable", None),
    }
}

/// The grant state the daemon's `CheckPermissions` payload reports: an
/// explicit `input_monitoring_granted` boolean decides; otherwise the label
/// `not_applicable` means no gate, and anything else is unknown with the
/// daemon's `detail` (or a default reason).
pub open spec fn payload_status_spec(data: JsonValue) -> PermissionView {
    match bool_field(data, "input_monitoring_granted"@) {
        Some(true) => PermissionView::Granted,
        Some(false) => PermissionView::NotGranted,
        None => if str_field(data, "input_monitoring"@) == Some("not_applicable"@) {
            PermissionView::NotApplicable
        } else {
            PermissionView::Unknown(
                match str_field(data, "detail"@) {
                    Some(d) => d,
                    None => "daemon reported unknown"@,
                },
            )
        },
    }
}

/// Read the daemon's grant state out of its `CheckPermissions` payload.
pub fn permission_from_payload(data: &JsonValue) -> (r: PermissionStatus)
    ensures
        perm_v(r) == payload_status_spec(*data),
{
    match data.get_bool("input_monitoring_granted") {
        Some(true) => PermissionStatus::Granted,
        Some(false) => PermissionStatus::NotGranted,
        None => {
            let label = match data.get_str("input_monitoring") {
                Some(l) => l,
                None => {
                    proof {
                        reveal_strlit("unknown");
                        reveal_strlit("not_applicable");
                        assert("unknown"@[0] != "not_applicable"@[0]);
                    }
                    "unknown"
                },
            };
            if str_eq(label, "not_applicable") {
                PermissionStatus::NotApplicable
            } else {
                let detail = match data.get_str("detail") {
                    Some(d) => String::from_str(d),
                    None => String::from_str("daemon reported unknown"),
                };
                PermissionStatus::Unknown(detail)
            }
        },
    }
}

// ───────────────────────────── the human report ─────────────────────────────

/// Where the environment stands, as the report needs it.
pub struct CheckContext {
    pub is_macos: bool,
    pub is_linux: bool,
    /// The daemon binary found next to this program, if any.
    pub sibling_daemon: Option<String>,
    /// The System Settings deep link for Input Monitoring.
    pub deeplink: String,
}

pub open spec fn ln(pieces: Seq<(Seq<char>, Style)>) -> Seq<Seq<(Seq<char>, Style)>> {
    seq![pieces]
}

pub open spec fn p(t: Seq<char>) -> (Seq<char>, Style) {
    (t, Style::Plain)
}

pub open spec fn grant_instructions_spec(deeplink: Seq<char>) -> Seq<Seq<(Seq<char>, Style)>> {
    seq![
        plain_line(Seq::empty()),
        plain_line("Open System Settings to grant:"@),
        plain_line("    open \""@ + deeplink + "\""@),
        plain_line("Or run:"@),
        plain_line("    conductorctl permissions --open-input-monitoring"@),
    ]
}

pub open spec fn linux_note() -> Seq<char> {
    "Linux uses udev rules + the `input` group. See SUPPORT.md for the install instructions."@
}

pub open spec fn macos_header_spec(sibling: Option<Seq<char>>) -> Seq<Seq<(Seq<char>, Style)>> {
    seq![
        plain_line("[macOS] Input Monitoring grants are required for both Conductor binaries:"@),
        plain_line(Seq::empty()),
        plain_line("  GUI app:    /Applications/Conductor.app (typical install path)"@),
        plain_line(
            match sibling {
                Some(path) => "  Daemon:     "@ + path + " (resolved from this conductorctl)"@,
                None => "  Daemon:     /usr/local/bin/conductor (typical install path; couldn't resolve a sibling binary next to conductorctl)"@,
            },
        ),
        plain_line(Seq::empty()),
    ]
}

pub open spec fn daemon_report_spec(s: PermissionView, ctx_linux: bool, ctx_macos: bool, deeplink: Seq<char>) -> Seq<
    Seq<(Seq<char>, Style)>,
> {
    (match s {
        PermissionView::Granted => ln(seq![p("Daemon (running, via IPC): "@), ("GRANTED"@, Style::Green)]),
        PermissionView::NotGranted => ln(
            seq![p("Daemon (running, via IPC): "@), ("NOT GRANTED"@, Style::Red)],
        ) + grant_instructions_spec(deeplink),
        PermissionView::Unknown(reason) => ln(
            seq![
                p("Daemon (running, via IPC): "@),
                ("UNKNOWN"@, Style::Yellow),
                p(" ("@ + reason + ")"@),
            ],
        ) + ln(plain_line("Verify in System Settings → Privacy & Security → Input Monitoring."@)),
        PermissionView::NotApplicable => ln(
            seq![("No consent gate required on this platform."@, Style::Dimmed)],
        ) + if ctx_linux {
            ln(plain_line(linux_note()))
        } else {
            Seq::empty()
        },
    }) + if ctx_macos {
        ln(plain_line(Seq::empty())) + ln(
            seq![
                (
                    "(GUI app's grant can't be checked from the CLI — open the GUI to verify, or check System Settings directly.)"@,
                    Style::Dimmed,
                ),
            ],
        )
    } else {
        Seq::empty()
    }
}

pub open spec fn local_report_spec(s: PermissionView, ctx_linux: bool, deeplink: Seq<char>) -> Seq<
    Seq<(Seq<char>, Style)>,
> {
    match s {
        PermissionView::NotApplicable => ln(
            seq![p("Input Monitoring: "@), ("no consent gate required on this platform"@, Style::Dimmed)],
        ) + if ctx_linux {
            ln(plain_line(linux_note()))
        } else {
            Seq::empty()
        },
        _ => ln(
            seq![
                p("Daemon: "@),
                ("UNKNOWN"@, Style::Yellow),
                p(" (couldn't reach the running daemon)"@),
            ],
        ) + ln(plain_line(Seq::empty())) + ln(
            seq![("Local probe (this conductorctl process — NOT the daemon's grant):"@, Style::Dimmed)],
        ) + ln(
            match s {
                PermissionView::Granted => seq![p("  conductorctl probe: "@), ("GRANTED"@, Style::Green)],
                PermissionView::NotGranted => seq![
                    p("  conductorctl probe: "@),
                    ("NOT GRANTED"@, Style::Red),
                ],
                PermissionView::Unknown(reason) => seq![
                    p("  conductorctl probe: "@),
                    ("UNKNOWN"@, Style::Yellow),
                    p(" ("@ + reason + ")"@),
                ],
                PermissionView::NotApplicable => Seq::empty(),
            },
        ) + ln(plain_line(Seq::empty())) + ln(
            plain_line("Start the daemon for an authoritative answer, or grant via System Settings:"@),
        ) + grant_instructions_spec(deeplink),
    }
}

pub open spec fn ov(s: Option<String>) -> Option<Seq<char>> {
    match s {
        Some(x) => Some(x@),
        None => None,
    }
}

/// The whole human report of `permissions --check`: on macOS the two
/// binaries to grant; then the daemon's answer when it was reachable, else
/// the local probe, clearly labelled as not the daemon's.
pub open spec fn check_report_spec(
    is_macos: bool,
    is_linux: bool,
    sibling: Option<Seq<char>>,
    deeplink: Seq<char>,
    daemon: Option<PermissionView>,
    local: Option<PermissionView>,
) -> Seq<Seq<(Seq<char>, Style)>> {
    (if is_macos {
        macos_header_spec(sibling)
    } else {
        Seq::empty()
    }) + match daemon {
        Some(s) => daemon_report_spec(s, is_linux, is_macos, deeplink),
        None => match local {
            Some(s) => local_report_spec(s, is_linux, deeplink),
            None => Seq::empty(),
        },
    }
}

fn push_grant_instructions(lines: &mut Vec<Vec<Span>>, deeplink: &str)
    ensures
        lines_v(final(lines)@) == lines_v(old(lines)@) + grant_instructions_spec(deeplink@),
{
    push_plain(lines, "");
    push_plain(lines, "Open System Settings to grant:");
    let mut l = String::from_str("    open \"");
    l.append(deeplink);
    l.append("\"");
    push_plain(lines, l.as_str());
    push_plain(lines, "Or run:");
    push_plain(lines, "    conductorctl permissions --open-input-monitoring");
    proof {
        reveal_strlit("");
        assert(""@ =~= Seq::<char>::empty());
        assert(lines_v(final(lines)@) =~= lines_v(old(lines)@) + grant_instructions_spec(deeplink@));
    }
}

fn push_status_line(lines: &mut Vec<Vec<Span>>, prefix: &str, s: &PermissionStatus)
    requires
        !(*s is NotApplicable),
    ensures
        lines_v(final(lines)@) == lines_v(old(lines)@).push(
            match perm_v(*s) {
                PermissionView::Granted => seq![p(prefix@), ("GRANTED"@, Style::Green)],
                PermissionView::NotGranted => seq![p(prefix@), ("NOT GRANTED"@, Style::Red)],
                PermissionView::Unknown(reason) => seq![
                    p(prefix@),
                    ("UNKNOWN"@, Style::Yellow),
                    p(" ("@ + reason + ")"@),
                ],
                PermissionView::NotApplicable => Seq::empty(),
            },
        ),
{
    let mut l: Vec<Span> = Vec::new();
    push_span(&mut l, span(prefix, Style::Plain));
    match s {
        PermissionStatus::Granted => push_span(&mut l, span("GRANTED", Style::Green)),
        PermissionStatus::NotGranted => push_span(&mut l, span("NOT GRANTED", Style::Red)),
        PermissionStatus::Unknown(reason) => {
            push_span(&mut l, span("UNKNOWN", Style::Yellow));
            let mut t = String::from_str(" (");
            t.append(reason.as_str());
            t.append(")");
            push_span(&mut l, span_owned(t, Style::Plain));
        },
        PermissionStatus::NotApplicable => {},
    }
    proof {
        assert(line_v(l@) =~= match perm_v(*s) {
            PermissionView::Granted => seq![p(prefix@), ("GRANTED"@, Style::Green)],
            PermissionView::NotGranted => seq![p(prefix@), ("NOT GRANTED"@, Style::Red)],
            PermissionView::Unknown(reason) => seq![
                p(prefix@),
                ("UNKNOWN"@, Style::Yellow),
                p(" ("@ + reason + ")"@),
            ],
            PermissionView::NotApplicable => Seq::empty(),
        });
    }
    push_line(lines, l);
}

/// The lines of the human `permissions --check` report.
pub fn human_check_report(
    ctx: &CheckContext,
    daemon_status: Option<&PermissionStatus>,
    local_status: Option<&PermissionStatus>,
) -> (r: Vec<Vec<Span>>)
    ensures
        lines_v(r@) == check_report_spec(
            ctx.is_macos,
            ctx.is_linux,
            ov(ctx.sibling_daemon),
            ctx.deeplink@,
            match daemon_status {
                Some(s) => Some(perm_v(*s)),
                None => None,
            },
            match local_status {
                Some(s) => Some(perm_v(*s)),
                None => None,
            },
        ),
{
    let mut lines: Vec<Vec<Span>> = Vec::new();
    proof {
        reveal_strlit("");
        assert(""@ =~= Seq::<char>::empty());
    }
    if ctx.is_macos {
        push_plain(&mut lines, "[macOS] Input Monitoring grants are required for both Conductor binaries:");
        push_plain(&mut lines, "");
        push_plain(&mut lines, "  GUI app:    /Applications/Conductor.app (typical install path)");
        match &ctx.sibling_daemon {
            Some(path) => {
                let mut t = String::from_str("  Daemon:     ");
                t.append(path.as_str());
                t.append(" (resolved from this conductorctl)");
                push_plain(&mut lines, t.as_str());
            },
            None => push_plain(
                &mut lines,
                "  Daemon:     /usr/local/bin/conductor (typical install path; couldn't resolve a sibling binary next to conductorctl)",
            ),
        }
        push_plain(&mut lines, "");
        proof {
            assert(lines_v(lines@) =~= macos_header_spec(ov(ctx.sibling_daemon)));
        }
    }
    let ghost head = lines_v(lines@);
    proof {
        assert(head =~= if ctx.is_macos {
            macos_header_spec(ov(ctx.sibling_daemon))
        } else {
            Seq::empty()
        });
    }
    match daemon_status {
        Some(status) => {
            match status {
                PermissionStatus::NotApplicable => {
                    push_styled(&mut lines, "No consent gate required on this platform.", Style::Dimmed);
                    if ctx.is_linux {
                        push_plain(
                            &mut lines,
                            "Linux uses udev rules + the `input` group. See SUPPORT.md for the install instructions.",
                        );
                    }
                },
                _ => {
                    push_status_line(&mut lines, "Daemon (running, via IPC): ", status);
                    match status {
                        PermissionStatus::NotGranted => push_grant_instructions(&mut lines, ctx.deeplink.as_str()),
                        PermissionStatus::Unknown(_) => push_plain(
                            &mut lines,
                            "Verify in System Settings → Privacy & Security → Input Monitoring.",
                        ),
                        _ => {},
                    }
                },
            }
            if ctx.is_macos {
                push_plain(&mut lines, "");
                push_styled(
                    &mut lines,
                    "(GUI app's grant can't be checked from the CLI — open the GUI to verify, or check System Settings directly.)",
                    Style::Dimmed,
                );
            }
            proof {
                assert(lines_v(lines@) =~= head + daemon_report_spec(
                    perm_v(*status),
                    ctx.is_linux,
                    ctx.is_macos,
                    ctx.deeplink@,
                ));
            }
        },
        None => match local_status {
            Some(status) => {
                match status {
                    PermissionStatus::NotApplicable => {
                        let mut l: Vec<Span> = Vec::new();
                        push_span(&mut l, span("Input Monitoring: ", Style::Plain));
                        push_span(&mut l, span("no consent gate required on this platform", Style::Dimmed));
                        proof {
                            assert(line_v(l@) =~= seq![
                                p("Input Monitoring: "@),
                                ("no consent gate required on this platform"@, Style::Dimmed),
                            ]);
                        }
                        push_line(&mut lines, l);
                        if ctx.is_linux {
                            push_plain(
                                &mut lines,
                                "Linux uses udev rules + the `input` group. See SUPPORT.md for the install instructions.",
                            );
                        }
                    },
                    _ => {
                        let mut l: Vec<Span> = Vec::new();
                        push_span(&mut l, span("Daemon: ", Style::Plain));
                        push_span(&mut l, span("UNKNOWN", Style::Yellow));
                        push_span(&mut l, span(" (couldn't reach the running daemon)", Style::Plain));
                        proof {
                            assert(line_v(l@) =~= seq![
                                p("Daemon: "@),
                                ("UNKNOWN"@, Style::Yellow),
                                p(" (couldn't reach the running daemon)"@),
                            ]);
                        }
                        push_line(&mut lines, l);
                        push_plain(&mut lines, "");
                        push_styled(
                            &mut lines,
                            "Local probe (this conductorctl process — NOT the daemon's grant):",
                            Style::Dimmed,
                        );
                        push_status_line(&mut lines, "  conductorctl probe: ", status);
                        push_plain(&mut lines, "");
                        push_plain(
                            &mut lines,
                            "Start the daemon for an authoritative answer, or grant via System Settings:",
                        );
                        push_grant_instructions(&mut lines, ctx.deeplink.as_str());
                    },
                }
                proof {
                    assert(lines_v(lines@) =~= head + local_report_spec(
                        perm_v(*status),
                        ctx.is_linux,
                        ctx.deeplink@,
                    ));
                }
            },
            None => {
                proof {
                    assert(lines_v(lines@) =~= head + Seq::<Seq<(Seq<char>, Style)>>::empty());
                }
            },
        },
    }
    lines
}

// ───────────────────────────── LLM budgets ─────────────────────────────

/// The effective LLM agent budget: the limits of `[security.llm]`, each
/// widened to `u64` (0 disables a dimension).
pub struct LlmBudget {
    pub max_iterations_per_turn: u64,
    pub max_iterations_per_session: u64,
    pub max_tool_calls_per_turn: u64,
    pub max_tool_calls_per_session: u64,
    pub max_tokens_in_per_session: u64,
    pub max_tokens_out_per_session: u64,
    pub max_wall_clock_seconds_per_turn: u64,
    pub max_wall_clock_seconds_per_session: u64,
    pub max_config_changes_per_session: u64,
    pub max_shell_exec_per_session: u64,
    pub max_network_tool_calls_per_session: u64,
    pub max_midi_out_per_session: u64,
    pub max_confirmations_requested_per_minute: u64,
    pub max_tokens_per_60sec: u64,
}

/// The rows of the budget table, in display order.
pub open spec fn budget_rows_spec(b: LlmBudget) -> Seq<(Seq<char>, u64)> {
    seq![
        ("max_iterations_per_turn"@, b.max_iterations_per_turn),
        ("max_iterations_per_session"@, b.max_iterations_per_session),
        ("max_tool_calls_per_turn"@, b.max_tool_calls_per_turn),
        ("max_tool_calls_per_session"@, b.max_tool_calls_per_session),
        ("max_tokens_in_per_session"@, b.max_tokens_in_per_session),
        ("max_tokens_out_per_session"@, b.max_tokens_out_per_session),
        ("max_wall_clock_seconds_per_turn"@, b.max_wall_clock_seconds_per_turn),
        ("max_wall_clock_seconds_per_session"@, b.max_wall_clock_seconds_per_session),
        ("max_config_changes_per_session"@, b.max_config_changes_per_session),
        ("max_shell_exec_per_session"@, b.max_shell_exec_per_session),
        ("max_network_tool_calls_per_session"@, b.max_network_tool_calls_per_session),
        ("max_midi_out_per_session"@, b.max_midi_out_per_session),
        ("max_confirmations_requested_per_minute"@, b.max_confirmations_requested_per_minute),
        ("max_tokens_per_60sec"@, b.max_tokens_per_60sec),
    ]
}

/// One row: the name padded to 40 columns, then the limit, or a dimmed
/// `disabled` for 0.
pub open spec fn budget_row_spec(name: Seq<char>, value: u64) -> Seq<(Seq<char>, Style)> {
    seq![
        ("  "@ + pad_right(name, 40) + " "@, Style::Plain),
        if value == 0 {
            ("disabled"@, Style::Dimmed)
        } else {
            (dec(value as nat), Style::Plain)
        },
    ]
}

pub open spec fn budget_table_spec(b: LlmBudget) -> Seq<Seq<(Seq<char>, Style)>> {
    budget_rows_spec(b).map_values(|row: (Seq<char>, u64)| budget_row_spec(row.0, row.1))
}

fn push_budget_row(lines: &mut Vec<Vec<Span>>, name: &str, value: u64)
    ensures
        lines_v(final(lines)@) == lines_v(old(lines)@).push(budget_row_spec(name@, value)),
{
    let mut head = String::from_str("  ");
    append_pad_right(&mut head, name, 40);
    head.append(" ");
    let mut l: Vec<Span> = Vec::new();
    push_span(&mut l, span_owned(head, Style::Plain));
    if value == 0 {
        push_span(&mut l, span("disabled", Style::Dimmed));
    } else {
        let mut t = String::new();
        append_dec(&mut t, value);
        proof {
            assert(t@ =~= dec(value as nat));
        }
        push_span(&mut l, span_owned(t, Style::Plain));
    }
    proof {
        assert(line_v(l@) =~= budget_row_spec(name@, value));
    }
    push_line(lines, l);
}

/// The table of `llm budgets show`, one line per limit.
pub fn budget_table(b: &LlmBudget) -> (r: Vec<Vec<Span>>)
    ensures
        lines_v(r@) == budget_table_spec(*b),
{
    let mut lines: Vec<Vec<Span>> = Vec::new();
    push_budget_row(&mut lines, "max_iterations_per_turn", b.max_iterations_per_turn);
    push_budget_row(&mut lines, "max_iterations_per_session", b.max_iterations_per_session);
    push_budget_row(&mut lines, "max_tool_calls_per_turn", b.max_tool_calls_per_turn);
    push_budget_row(&mut lines, "max_tool_calls_per_session", b.max_tool_calls_per_session);
    push_budget_row(&mut lines, "max_tokens_in_per_session", b.max_tokens_in_per_session);
    push_budget_row(&mut lines, "max_tokens_out_per_session", b.max_tokens_out_per_session);
    push_budget_row(&mut lines, "max_wall_clock_seconds_per_turn", b.max_wall_clock_seconds_per_turn);
    push_budget_row(&mut lines, "max_wall_clock_seconds_per_session", b.max_wall_clock_seconds_per_session);
    push_budget_row(&mut lines, "max_config_changes_per_session", b.max_config_changes_per_session);
    push_budget_row(&mut lines, "max_shell_exec_per_session", b.max_shell_exec_per_session);
    push_budget_row(&mut lines, "max_network_tool_calls_per_session", b.max_network_tool_calls_per_session);
    push_budget_row(&mut lines, "max_midi_out_per_session", b.max_midi_out_per_session);
    push_budget_row(
        &mut lines,
        "max_confirmations_requested_per_minute",
        b.max_confirmations_requested_per_minute,
    );
    push_budget_row(&mut lines, "max_tokens_per_60sec", b.max_tokens_per_60sec);
    proof {
        assert(lines_v(lines@) =~= budget_table_spec(*b));
    }
    lines
}

/// Where the shown budget comes from: the config file read, or the
/// defaults when there is none.
pub fn budget_source(config_found: bool, path: &str) -> (r: String)
    ensures
        r@ == if config_found {
            path@
        } else {
            "ADR-027 §D6 defaults (no config file)"@
        },
{
    if config_found {
        String::from_str(path)
    } else {
        String::from_str("ADR-027 §D6 defaults (no config file)")
    }
}

} // verus!
