//! `conductorctl status`, `bindings` and the number and duration renderings
//! the status screens share.
use vstd::prelude::*;
use crate::json::{JsonValue, bool_field, spec_get, str_field, u64_field, opt_array};
use crate::text::{append_dec, append_dec_zero_pad, dec, zero_pad, str_eq, append_pad_right, pad_right};
use crate::styled::{Span, Style, span, span_owned, push_span, push_line, push_plain, push_styled, line_v, lines_v, plain_line};

verus! {

// ───────────────────────────── durations and counts ─────────────────────────────

/// `secs` as `"{d}d {h}h {m}m {s}s"`, leaving out the leading units that are
/// zero (`"{h}h {m}m {s}s"`, `"{m}m {s}s"`, `"{s}s"`).
pub open spec fn format_duration_spec(secs: nat) -> Seq<char> {
    let days = secs / 86400;
    let hours = (secs % 86400) / 3600;
    let minutes = (secs % 3600) / 60;
    let seconds = secs % 60;
    if days > 0 {
        dec(days) + "d "@ + dec(hours) + "h "@ + dec(minutes) + "m "@ + dec(seconds) + "s"@
    } else if hours > 0 {
        dec(hours) + "h "@ + dec(minutes) + "m "@ + dec(seconds) + "s"@
    } else if minutes > 0 {
        dec(minutes) + "m "@ + dec(seconds) + "s"@
    } else {
        dec(seconds) + "s"@
    }
}

/// Format duration in seconds to human-readable string
pub fn format_duration(secs: u64) -> (r: String)
    ensures
        r@ == format_duration_spec(secs as nat),
{
    let days = secs / 86400;
    let hours = (secs % 86400) / 3600;
    let minutes = (secs % 3600) / 60;
    let seconds = secs % 60;
    let mut s = String::new();
    if days > 0 {
        append_dec(&mut s, days);
        s.append("d ");
        append_dec(&mut s, hours);
        s.append("h ");
        append_dec(&mut s, minutes);
        s.append("m ");
    } else if hours > 0 {
        append_dec(&mut s, hours);
        s.append("h ");
        append_dec(&mut s, minutes);
        s.append("m ");
    } else if minutes > 0 {
        append_dec(&mut s, minutes);
        s.append("m ");
    }
    append_dec(&mut s, seconds);
    s.append("s");
    proof {
        assert(s@ =~= format_duration_spec(secs as nat));
    }
    s
}

/// `n` in decimal with a comma between each group of three digits, counted
/// from the right (`1234567` → `"1,234,567"`).
pub open spec fn grouped(n: nat) -> Seq<char>
    decreases n,
{
    if n < 1000 {
        dec(n)
    } else {
        grouped(n / 1000) + ","@ + zero_pad(dec(n % 1000), 3)
    }
}

fn append_grouped(s: &mut String, n: u64)
    ensures
        final(s)@ == old(s)@ + grouped(n as nat),
    decreases n,
{
    if n < 1000 {
        append_dec(s, n);
    } else {
        append_grouped(s, n / 1000);
        s.append(",");
        append_dec_zero_pad(s, n % 1000, 3);
        proof {
            assert(final(s)@ =~= old(s)@ + grouped(n as nat));
        }
    }
}

/// Format large numbers with comma separators
pub fn format_number(n: u64) -> (r: String)
    ensures
        r@ == grouped(n as nat),
{
    let mut s = String::new();
    append_grouped(&mut s, n);
    proof {
        assert(s@ =~= grouped(n as nat));
    }
    s
}

// ───────────────────────────── status ─────────────────────────────

/// The letter grade of an average reload time.
#[derive(Clone, Copy, Debug, PartialEq, Eq, Structural)]
pub enum ReloadGrade {
    A,
    B,
    C,
}

pub open spec fn grade_spec(avg_ms: u64) -> ReloadGrade {
    if avg_ms < 20 {
        ReloadGrade::A
    } else if avg_ms < 50 {
        ReloadGrade::B
    } else {
        ReloadGrade::C
    }
}

/// The grade shown next to the average reload time: A under 20 ms, B under
/// 50 ms, C otherwise.
pub fn reload_grade(avg_ms: u64) -> (r: ReloadGrade)
    ensures
        r == grade_spec(avg_ms),
{
    if avg_ms < 20 {
        ReloadGrade::A
    } else if avg_ms < 50 {
        ReloadGrade::B
    } else {
        ReloadGrade::C
    }
}

/// The reload-performance block of the status screen.
pub struct ReloadStats {
    pub last_ms: Option<u64>,
    pub avg: Option<(u64, ReloadGrade)>,
    pub fastest_ms: Option<u64>,
    pub slowest_ms: Option<u64>,
}

/// What the status screen shows, field by field; `None` where the daemon's
/// payload lacks the field.
pub struct StatusReport {
    pub state: Option<String>,
    pub current_mode: Option<String>,
    pub config_path: Option<String>,
    /// The uptime rendered by [`format_duration`].
    pub uptime: Option<String>,
    /// The processed-event count rendered by [`format_number`].
    pub events: Option<String>,
    pub config_reloads: Option<u64>,
    pub reload_stats: Option<ReloadStats>,
}

pub open spec fn opt_string_view(s: Option<String>) -> Option<Seq<char>> {
    match s {
        Some(x) => Some(x@),
        None => None,
    }
}

pub open spec fn opt_map_u64(v: Option<u64>, f: spec_fn(nat) -> Seq<char>) -> Option<Seq<char>> {
    match v {
        Some(x) => Some(f(x as nat)),
        None => None,
    }
}

fn owned_opt(s: Option<&str>) -> (r: Option<String>)
    ensures
        opt_string_view(r) == match s {
            Some(t) => Some(t@),
            None => None::<Seq<char>>,
        },
{
    match s {
        Some(t) => Some(String::from_str(t)),
        None => None,
    }
}

/// The reload statistics of a `reload_stats` object.
pub open spec fn reload_stats_ok(r: ReloadStats, v: JsonValue) -> bool {
    &&& r.last_ms == u64_field(v, "last_reload_ms"@)
    &&& r.avg == match u64_field(v, "avg_reload_ms"@) {
        Some(a) => Some((a, grade_spec(a))),
        None => None::<(u64, ReloadGrade)>,
    }
    &&& r.fastest_ms == u64_field(v, "fastest_reload_ms"@)
    &&& r.slowest_ms == u64_field(v, "slowest_reload_ms"@)
}

/// Read the daemon's `Status` payload into the fields the status screen
/// prints.
pub fn status_report(data: &JsonValue) -> (r: StatusReport)
    ensures
        opt_string_view(r.state) == str_field(*data, "state"@),
        opt_string_view(r.current_mode) == str_field(*data, "current_mode"@),
        opt_string_view(r.config_path) == str_field(*data, "config_path"@),
        opt_string_view(r.uptime) == opt_map_u64(
            u64_field(*data, "uptime_secs"@),
            |x: nat| format_duration_spec(x),
        ),
        opt_string_view(r.events) == opt_map_u64(
            u64_field(*data, "events_processed"@),
            |x: nat| grouped(x),
        ),
        r.config_reloads == u64_field(*data, "config_reloads"@),
        spec_get(*data, "reload_stats"@) is None <==> r.reload_stats is None,
        match (spec_get(*data, "reload_stats"@), r.reload_stats) {
            (Some(v), Some(s)) => reload_stats_ok(s, v),
            _ => true,
        },
{
    let uptime = match data.get_u64("uptime_secs") {
        Some(u) => Some(format_duration(u)),
        None => None,
    };
    let events = match data.get_u64("events_processed") {
        Some(e) => Some(format_number(e)),
        None => None,
    };
    let reload_stats = match data.get("reload_stats") {
        Some(rs) => {
            let avg = match rs.get_u64("avg_reload_ms") {
                Some(a) => Some((a, reload_grade(a))),
                None => None,
            };
            Some(
                ReloadStats {
                    last_ms: rs.get_u64("last_reload_ms"),
                    avg,
                    fastest_ms: rs.get_u64("fastest_reload_ms"),
                    slowest_ms: rs.get_u64("slowest_reload_ms"),
                },
            )
        },
        None => None,
    };
    StatusReport {
        state: owned_opt(data.get_str("state")),
        current_mode: owned_opt(data.get_str("current_mode")),
        config_path: owned_opt(data.get_str("config_path")),
        uptime,
        events,
        config_reloads: data.get_u64("config_reloads"),
        reload_stats,
    }
}

// ───────────────────────────── bindings ─────────────────────────────

/// Whether a device passes the `bindings` filters: its `device_id` equals
/// the alias exactly (a missing id counts as `""`), and, with
/// `unbound_only`, it is not configured (a missing flag counts as `false`).
pub open spec fn binding_kept(dev: JsonValue, alias: Option<Seq<char>>, unbound_only: bool) -> bool {
    &&& match alias {
        Some(a) => match str_field(dev, "device_id"@) {
            Some(id) => id == a,
            None => a == Seq::<char>::empty(),
        },
        None => true,
    }
    &&& (unbound_only ==> bool_field(dev, "is_configured"@) != Some(true))
}

/// The devices that pass the filters, in their original order.
pub open spec fn kept_bindings(devs: Seq<JsonValue>, alias: Option<Seq<char>>, unbound_only: bool) -> Seq<
    JsonValue,
>
    decreases devs.len(),
{
    if devs.len() == 0 {
        Seq::empty()
    } else {
        let rest = kept_bindings(devs.drop_last(), alias, unbound_only);
        if binding_kept(devs.last(), alias, unbound_only) {
            rest.push(devs.last())
        } else {
            rest
        }
    }
}

/// The alias and unbound filters compose by AND: filtering by both keeps
/// what filtering by one and then by the other keeps, in either order and
/// in the original order; with neither filter every device is kept.
pub proof fn binding_filters_compose(devs: Seq<JsonValue>, alias: Option<Seq<char>>, unbound_only: bool)
    ensures
        kept_bindings(devs, None, false) == devs,
        kept_bindings(devs, alias, unbound_only) == kept_bindings(kept_bindings(devs, alias, false), None, unbound_only),
        kept_bindings(devs, alias, unbound_only) == kept_bindings(kept_bindings(devs, None, unbound_only), alias, false),
    decreases devs.len(),
{
    if devs.len() > 0 {
        binding_filters_compose(devs.drop_last(), alias, unbound_only);
        let d = devs.last();
        let a1 = kept_bindings(devs.drop_last(), alias, false);
        let u1 = kept_bindings(devs.drop_last(), None, unbound_only);
        if binding_kept(d, alias, false) {
            assert(a1.push(d).drop_last() =~= a1);
        }
        if binding_kept(d, None, unbound_only) {
            assert(u1.push(d).drop_last() =~= u1);
        }
        assert(devs.drop_last().push(d) =~= devs);
    } else {
        assert(kept_bindings(devs, None, false) =~= devs);
    }
}

pub open spec fn opt_str_view(s: Option<&str>) -> Option<Seq<char>> {
    match s {
        Some(t) => Some(t@),
        None => None,
    }
}

/// The values behind a sequence of references.
pub open spec fn deref_all(s: Seq<&JsonValue>) -> Seq<JsonValue> {
    s.map_values(|x: &JsonValue| *x)
}

/// A pure filter over the devices of the daemon's status: `alias_filter`
/// matches the device's `device_id` field **exactly** (opportunistic ports
/// carry `raw:<port name>`), and `unbound_only` keeps only devices whose
/// `is_configured` is not `true`.
pub fn filter_bindings<'a>(devices: &'a Vec<JsonValue>, alias_filter: Option<&str>, unbound_only: bool) -> (r:
    Vec<&'a JsonValue>)
    ensures
        deref_all(r@) == kept_bindings(devices@, opt_str_view(alias_filter), unbound_only),
{
    let mut out: Vec<&'a JsonValue> = Vec::new();
    let n = devices.len();
    let mut i: usize = 0;
    while i < n
        invariant
            n == devices@.len(),
            i <= n,
            deref_all(out@) == kept_bindings(devices@.take(i as int), opt_str_view(alias_filter), unbound_only),
        decreases n - i,
    {
        let dev = &devices[i];
        let mut keep = true;
        if let Some(a) = alias_filter {
            let id = match dev.get_str("device_id") {
                Some(id) => id,
                None => {
                    proof {
                        reveal_strlit("");
                    }
                    ""
                },
            };
            assert(id@ == match str_field(*dev, "device_id"@) {
                Some(x) => x,
                None => Seq::<char>::empty(),
            });
            if !str_eq(id, a) {
                keep = false;
            }
        }
        if unbound_only {
            let configured = match dev.get_bool("is_configured") {
                Some(b) => b,
                None => false,
            };
            if configured {
                keep = false;
            }
        }
        proof {
            assert(devices@.take(i + 1).drop_last() =~= devices@.take(i as int));
            assert(devices@.take(i + 1).last() == devices@[i as int]);
            assert(keep == binding_kept(devices@[i as int], opt_str_view(alias_filter), unbound_only));
        }
        let ghost before = out@;
        if keep {
            out.push(dev);
            proof {
                assert(deref_all(out@) =~= deref_all(before).push(devices@[i as int]));
            }
        }
        i = i + 1;
    }
    proof {
        assert(devices@.take(n as int) =~= devices@);
    }
    out
}

/// How many of the kept devices are configured (`is_configured` is `true`).
pub open spec fn configured_count(devs: Seq<JsonValue>) -> nat
    decreases devs.len(),
{
    if devs.len() == 0 {
        0
    } else {
        configured_count(devs.drop_last()) + if bool_field(devs.last(), "is_configured"@) == Some(true) {
            1nat
        } else {
            0nat
        }
    }
}

proof fn lemma_configured_count_le(devs: Seq<JsonValue>)
    ensures
        configured_count(devs) <= devs.len(),
    decreases devs.len(),
{
    if devs.len() > 0 {
        lemma_configured_count_le(devs.drop_last());
    }
}

/// The split of the bindings table into configured and opportunistic ports:
/// `(configured, opportunistic)`, which add up to the number of devices.
pub fn binding_partition_counts(devs: &Vec<&JsonValue>) -> (r: (usize, usize))
    ensures
        r.0 == configured_count(deref_all(devs@)),
        r.0 + r.1 == devs@.len(),
{
    let n = devs.len();
    let mut c: usize = 0;
    let mut i: usize = 0;
    while i < n
        invariant
            n == devs@.len(),
            i <= n,
            c == configured_count(deref_all(devs@.take(i as int))),
            c <= i,
        decreases n - i,
    {
        proof {
            assert(deref_all(devs@.take(i + 1)).drop_last() =~= deref_all(devs@.take(i as int)));
            assert(deref_all(devs@.take(i + 1)).last() == *devs@[i as int]);
        }
        let configured = match devs[i].get_bool("is_configured") {
            Some(b) => b,
            None => false,
        };
        if configured {
            c = c + 1;
        }
        i = i + 1;
    }
    proof {
        assert(devs@.take(n as int) =~= devs@);
    }
    (c, n - c)
}

/// One row of the bindings table, after the connection dot: the device id
/// padded to 24 columns, the port name padded to 32, an arrow, and the
/// direction (default `Input`), followed by `, output=<port>` and
/// `[auto-paired]` when the daemon reports an output port.
pub open spec fn binding_row_spec(dev: JsonValue) -> Seq<char> {
    let id = match str_field(dev, "device_id"@) {
        Some(s) => s,
        None => "?"@,
    };
    let port = match str_field(dev, "port_name"@) {
        Some(s) => s,
        None => "?"@,
    };
    let direction = match str_field(dev, "direction"@) {
        Some(s) => s,
        None => "Input"@,
    };
    let suffix = match str_field(dev, "output_port_name"@) {
        Some(out) => direction + ", output="@ + out + if bool_field(dev, "output_auto_paired"@) == Some(
            true,
        ) {
            " [auto-paired]"@
        } else {
            Seq::<char>::empty()
        },
        None => direction,
    };
    pad_right(id, 24) + " "@ + pad_right(port, 32) + " ← "@ + suffix
}

/// Whether the row's dot shows the port as connected.
pub fn binding_connected(dev: &JsonValue) -> (r: bool)
    ensures
        r == (bool_field(*dev, "connected"@) == Some(true)),
{
    match dev.get_bool("connected") {
        Some(b) => b,
        None => false,
    }
}

/// The text of one bindings-table row after the connection dot.
pub fn binding_row_text(dev: &JsonValue) -> (r: String)
    ensures
        r@ == binding_row_spec(*dev),
{
    let id = match dev.get_str("device_id") {
        Some(s) => s,
        None => "?",
    };
    let port = match dev.get_str("port_name") {
        Some(s) => s,
        None => "?",
    };
    let direction = match dev.get_str("direction") {
        Some(s) => s,
        None => "Input",
    };
    let mut suffix = String::from_str(direction);
    if let Some(out) = dev.get_str("output_port_name") {
        suffix.append(", output=");
        suffix.append(out);
        let auto = match dev.get_bool("output_auto_paired") {
            Some(b) => b,
            None => false,
        };
        if auto {
            suffix.append(" [auto-paired]");
        }
    }
    let mut s = String::new();
    append_pad_right(&mut s, id, 24);
    s.append(" ");
    append_pad_right(&mut s, port, 32);
    s.append(" ← ");
    s.append(suffix.as_str());
    proof {
        reveal_strlit("?");
        reveal_strlit("Input");
        assert(s@ =~= binding_row_spec(*dev));
    }
    s
}

/// What the bindings screen says when nothing is left after filtering.
pub open spec fn empty_bindings_message_spec(alias_given: bool, unbound_only: bool) -> Seq<char> {
    if alias_given {
        "No binding matches the given --alias filter."@
    } else if unbound_only {
        "No opportunistic ports."@
    } else {
        "No bindings reported by the daemon."@
    }
}

pub fn empty_bindings_message(alias_given: bool, unbound_only: bool) -> (r: String)
    ensures
        r@ == empty_bindings_message_spec(alias_given, unbound_only),
{
    if alias_given {
        String::from_str("No binding matches the given --alias filter.")
    } else if unbound_only {
        String::from_str("No opportunistic ports.")
    } else {
        String::from_str("No bindings reported by the daemon.")
    }
}

/// The devices of a `Status` payload: `device_status.devices`, or none.
pub open spec fn status_devices(data: JsonValue) -> Seq<JsonValue> {
    match spec_get(data, "device_status"@) {
        Some(ds) => match opt_array(spec_get(ds, "devices"@)) {
            Some(a) => a,
            None => Seq::empty(),
        },
        None => Seq::empty(),
    }
}

/// `data.get("device_status").and_then(|d| d.get("devices")).and_then(|v| v.as_array())`.
pub fn status_device_array(data: &JsonValue) -> (r: Option<&Vec<JsonValue>>)
    ensures
        match r {
            Some(a) => a@ == status_devices(*data) && opt_array(
                spec_get(spec_get(*data, "device_status"@)->0, "devices"@),
            ) is Some && spec_get(*data, "device_status"@) is Some,
            None => status_devices(*data) == Seq::<JsonValue>::empty(),
        },
{
    match data.get("device_status") {
        Some(ds) => match ds.get("devices") {
            Some(v) => v.as_array(),
            None => None,
        },
        None => None,
    }
}


// ───────────────────────────── reload and validate ─────────────────────────────

pub open spec fn count_line(label: Seq<char>, v: Option<u64>) -> Seq<Seq<(Seq<char>, Style)>> {
    match v {
        Some(n) => seq![plain_line(label + dec(n as nat))],
        None => Seq::empty(),
    }
}

/// The colour of the daemon's reload grade: `A` green, `B` yellow, any
/// other grade red.
pub open spec fn grade_style(g: Seq<char>) -> Style {
    if g == "A"@ {
        Style::Green
    } else if g == "B"@ {
        Style::Yellow
    } else {
        Style::Red
    }
}

/// What `reload` prints from the daemon's reply: the success line, the
/// duration with its grade (when timed), and the modes and mappings loaded.
pub open spec fn reload_summary_spec(data: JsonValue) -> Seq<Seq<(Seq<char>, Style)>> {
    seq![seq![("✓ Configuration reloaded successfully"@, Style::Green)]] + (match u64_field(
        data,
        "reload_duration_ms"@,
    ) {
        Some(d) => {
            let g = match str_field(data, "performance_grade"@) {
                Some(x) => x,
                None => "?"@,
            };
            seq![
                seq![
                    ("Duration:  "@ + dec(d as nat) + " ms (grade: "@, Style::Plain),
                    (g, grade_style(g)),
                    (")"@, Style::Plain),
                ],
            ]
        },
        None => Seq::empty(),
    }) + count_line("Modes:     "@, u64_field(data, "modes_loaded"@)) + count_line(
        "Mappings:  "@,
        u64_field(data, "mappings_loaded"@),
    )
}

fn push_count_line(lines: &mut Vec<Vec<Span>>, label: &str, v: Option<u64>)
    ensures
        lines_v(final(lines)@) == lines_v(old(lines)@) + count_line(label@, v),
{
    match v {
        Some(n) => {
            let mut t = String::from_str(label);
            append_dec(&mut t, n);
            push_plain(lines, t.as_str());
        },
        None => {},
    }
    proof {
        assert(lines_v(final(lines)@) =~= lines_v(old(lines)@) + count_line(label@, v));
    }
}

/// The lines `reload` prints after a successful reload.
pub fn reload_summary_lines(data: &JsonValue) -> (r: Vec<Vec<Span>>)
    ensures
        lines_v(r@) == reload_summary_spec(*data),
{
    let mut lines: Vec<Vec<Span>> = Vec::new();
    push_styled(&mut lines, "✓ Configuration reloaded successfully", Style::Green);
    let ghost s1 = lines_v(lines@);
    if let Some(d) = data.get_u64("reload_duration_ms") {
        let g = match data.get_str("performance_grade") {
            Some(x) => x,
            None => "?",
        };
        let style = if str_eq(g, "A") {
            Style::Green
        } else if str_eq(g, "B") {
            Style::Yellow
        } else {
            Style::Red
        };
        let mut t = String::from_str("Duration:  ");
        append_dec(&mut t, d);
        t.append(" ms (grade: ");
        let mut l: Vec<Span> = Vec::new();
        push_span(&mut l, span_owned(t, Style::Plain));
        push_span(&mut l, span(g, style));
        push_span(&mut l, span(")", Style::Plain));
        proof {
            assert(line_v(l@) =~= seq![
                ("Duration:  "@ + dec(d as nat) + " ms (grade: "@, Style::Plain),
                (g@, grade_style(g@)),
                (")"@, Style::Plain),
            ]);
        }
        push_line(&mut lines, l);
    }
    let ghost s2 = lines_v(lines@);
    proof {
        assert(s2 =~= s1 + match u64_field(*data, "reload_duration_ms"@) {
            Some(d) => {
                let g = match str_field(*data, "performance_grade"@) {
                    Some(x) => x,
                    None => "?"@,
                };
                seq![
                    seq![
                        ("Duration:  "@ + dec(d as nat) + " ms (grade: "@, Style::Plain),
                        (g, grade_style(g)),
                        (")"@, Style::Plain),
                    ],
                ]
            },
            None => Seq::empty(),
        });
    }
    push_count_line(&mut lines, "Modes:     ", data.get_u64("modes_loaded"));
    push_count_line(&mut lines, "Mappings:  ", data.get_u64("mappings_loaded"));
    proof {
        assert(lines_v(lines@) =~= reload_summary_spec(*data));
    }
    lines
}

/// What `validate` prints from the daemon's reply: nothing when it carries
/// no verdict; for a valid config the success line and the modes and
/// mappings counted; otherwise the failure line.
pub open spec fn validate_summary_spec(data: JsonValue) -> Seq<Seq<(Seq<char>, Style)>> {
    match bool_field(data, "valid"@) {
        Some(true) => seq![seq![("✓ Configuration is valid"@, Style::Green)]] + count_line(
            "Modes:    "@,
            u64_field(data, "modes"@),
        ) + count_line("Mappings: "@, u64_field(data, "mappings"@)),
        Some(false) => seq![seq![("✗ Configuration is invalid"@, Style::Red)]],
        None => Seq::empty(),
    }
}

/// The lines `validate` prints.
pub fn validate_summary_lines(data: &JsonValue) -> (r: Vec<Vec<Span>>)
    ensures
        lines_v(r@) == validate_summary_spec(*data),
{
    let mut lines: Vec<Vec<Span>> = Vec::new();
    match data.get_bool("valid") {
        Some(true) => {
            push_styled(&mut lines, "✓ Configuration is valid", Style::Green);
            push_count_line(&mut lines, "Modes:    ", data.get_u64("modes"));
            push_count_line(&mut lines, "Mappings: ", data.get_u64("mappings"));
        },
        Some(false) => {
            push_styled(&mut lines, "✗ Configuration is invalid", Style::Red);
        },
        None => {},
    }
    proof {
        assert(lines_v(lines@) =~= validate_summary_spec(*data));
    }
    lines
}

} // verus!
