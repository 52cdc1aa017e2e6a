//! The device screens of `conductorctl` (the available input devices and the
//! current MIDI device) and the network-listener approval screens.
use vstd::prelude::*;
use crate::json::{JsonValue, spec_get, str_field, u64_field, bool_field, opt_array};
use crate::text::{dec, pad_right, append_dec, append_pad_right, str_eq};
use crate::styled::{Span, Style, span, span_owned, push_span, push_line, push_plain, span_v, line_v, lines_v, plain_line};
use crate::ctl_daemon::{format_duration, format_duration_spec};

verus! {

pub open spec fn or_text(v: Option<Seq<char>>, d: Seq<char>) -> Seq<char> {
    match v {
        Some(s) => s,
        None => d,
    }
}

pub open spec fn u64_or_zero(v: Option<u64>) -> nat {
    match v {
        Some(n) => n as nat,
        None => 0,
    }
}

// ───────────────────────────── available devices ─────────────────────────────

/// One MIDI device: `  [<port>] <name>`, then a green ` (connected)` when
/// it is connected.
pub open spec fn midi_device_line(d: JsonValue) -> Seq<(Seq<char>, Style)> {
    let head = (
        "  ["@ + dec(u64_or_zero(u64_field(d, "port_index"@))) + "] "@ + or_text(
            str_field(d, "port_name"@),
            "Unknown"@,
        ),
        Style::Plain,
    );
    if bool_field(d, "connected"@) == Some(true) {
        seq![head, (" (connected)"@, Style::Green)]
    } else {
        seq![head]
    }
}

/// One HID device: `  [<index>] <name> (UUID: <uuid>)`.
pub open spec fn hid_device_line(d: JsonValue) -> Seq<(Seq<char>, Style)> {
    plain_line(
        "  ["@ + dec(u64_or_zero(u64_field(d, "index"@))) + "] "@ + or_text(str_field(d, "name"@), "Unknown"@)
            + " (UUID: "@ + or_text(str_field(d, "uuid"@), Seq::empty()) + ")"@,
    )
}

/// A device section: a blank line, the heading, then one line per device
/// (or the `none` line); nothing when the payload has no such list.
pub open spec fn section_spec(
    items: Option<Seq<JsonValue>>,
    heading: (Seq<char>, Style),
    none: Seq<char>,
    lines: Seq<Seq<(Seq<char>, Style)>>,
) -> Seq<Seq<(Seq<char>, Style)>> {
    match items {
        Some(a) => seq![plain_line(Seq::empty()), seq![heading]] + if a.len() == 0 {
            seq![plain_line(none)]
        } else {
            lines
        },
        None => Seq::empty(),
    }
}

pub open spec fn midi_lines(a: Seq<JsonValue>) -> Seq<Seq<(Seq<char>, Style)>> {
    a.map_values(|d: JsonValue| midi_device_line(d))
}

pub open spec fn hid_lines(a: Seq<JsonValue>) -> Seq<Seq<(Seq<char>, Style)>> {
    a.map_values(|d: JsonValue| hid_device_line(d))
}

/// The body of `list-devices` (below its title): the MIDI devices, the HID
/// devices, and a closing blank line.
pub open spec fn device_list_spec(data: JsonValue) -> Seq<Seq<(Seq<char>, Style)>> {
    let midi = opt_array(spec_get(data, "midi_devices"@));
    let hid = opt_array(spec_get(data, "hid_devices"@));
    section_spec(
        midi,
        ("MIDI Devices:"@, Style::GreenBold),
        "  No MIDI devices found"@,
        match midi {
            Some(a) => midi_lines(a),
            None => Seq::empty(),
        },
    ) + section_spec(
        hid,
        ("HID Devices (Gamepads/Controllers):"@, Style::YellowBold),
        "  No HID devices found"@,
        match hid {
            Some(a) => hid_lines(a),
            None => Seq::empty(),
        },
    ) + seq![plain_line(Seq::empty())]
}

fn midi_device_row(d: &JsonValue) -> (r: Vec<Span>)
    ensures
        line_v(r@) == midi_device_line(*d),
{
    let port = match d.get_u64("port_index") {
        Some(p) => p,
        None => 0,
    };
    let name = match d.get_str("port_name") {
        Some(n) => n,
        None => "Unknown",
    };
    let mut t = String::from_str("  [");
    append_dec(&mut t, port);
    t.append("] ");
    t.append(name);
    let mut l: Vec<Span> = Vec::new();
    push_span(&mut l, span_owned(t, Style::Plain));
    let connected = match d.get_bool("connected") {
        Some(b) => b,
        None => false,
    };
    if connected {
        push_span(&mut l, span(" (connected)", Style::Green));
    }
    l
}

fn hid_device_row(d: &JsonValue) -> (r: Vec<Span>)
    ensures
        line_v(r@) == hid_device_line(*d),
{
    let index = match d.get_u64("index") {
        Some(p) => p,
        None => 0,
    };
    let name = match d.get_str("name") {
        Some(n) => n,
        None => "Unknown",
    };
    let mut t = String::from_str("  [");
    append_dec(&mut t, index);
    t.append("] ");
    t.append(name);
    t.append(" (UUID: ");
    match d.get_str("uuid") {
        Some(u) => t.append(u),
        None => {},
    }
    t.append(")");
    let mut l: Vec<Span> = Vec::new();
    push_span(&mut l, span_owned(t, Style::Plain));
    proof {
        assert(line_v(l@) =~= hid_device_line(*d));
    }
    l
}

fn push_midi_section(lines: &mut Vec<Vec<Span>>, data: &JsonValue)
    ensures
        lines_v(final(lines)@) == lines_v(old(lines)@) + section_spec(
            opt_array(spec_get(*data, "midi_devices"@)),
            ("MIDI Devices:"@, Style::GreenBold),
            "  No MIDI devices found"@,
            match opt_array(spec_get(*data, "midi_devices"@)) {
                Some(a) => midi_lines(a),
                None => Seq::empty(),
            },
        ),
{
    let items = match data.get("midi_devices") {
        Some(v) => match v.as_array() {
            Some(a) => a,
            None => {
                proof {
                    assert(lines_v(lines@) =~= lines_v(old(lines)@) + Seq::empty());
                }
                return;
            },
        },
        None => {
            proof {
                assert(lines_v(lines@) =~= lines_v(old(lines)@) + Seq::empty());
            }
            return;
        },
    };
    proof {
        reveal_strlit("");
        assert(""@ =~= Seq::<char>::empty());
        assert(opt_array(spec_get(*data, "midi_devices"@)) == Some(items@));
    }
    push_plain(lines, "");
    let mut h: Vec<Span> = Vec::new();
    push_span(&mut h, span("MIDI Devices:", Style::GreenBold));
    proof {
        assert(line_v(h@) =~= seq![("MIDI Devices:"@, Style::GreenBold)]);
    }
    push_line(lines, h);
    let ghost start = lines_v(lines@);
    proof {
        assert(start =~= lines_v(old(lines)@) + seq![plain_line(Seq::empty()), seq![("MIDI Devices:"@, Style::GreenBold)]]);
    }
    if items.len() == 0 {
        push_plain(lines, "  No MIDI devices found");
    } else {
        let mut i: usize = 0;
        while i < items.len()
            invariant
                i <= items@.len(),
                lines_v(lines@) == start + midi_lines(items@.take(i as int)),
            decreases items@.len() - i,
        {
            let row = midi_device_row(&items[i]);
            push_line(lines, row);
            proof {
                assert(midi_lines(items@.take(i + 1)) =~= midi_lines(items@.take(i as int)).push(
                    midi_device_line(items@[i as int]),
                ));
            }
            i = i + 1;
        }
        proof {
            assert(items@.take(items@.len() as int) =~= items@);
        }
    }
    proof {
        assert(lines_v(lines@) =~= lines_v(old(lines)@) + section_spec(
            opt_array(spec_get(*data, "midi_devices"@)),
            ("MIDI Devices:"@, Style::GreenBold),
            "  No MIDI devices found"@,
            midi_lines(items@),
        ));
    }
}

fn push_hid_section(lines: &mut Vec<Vec<Span>>, data: &JsonValue)
    ensures
        lines_v(final(lines)@) == lines_v(old(lines)@) + section_spec(
            opt_array(spec_get(*data, "hid_devices"@)),
            ("HID Devices (Gamepads/Controllers):"@, Style::YellowBold),
            "  No HID devices found"@,
            match opt_array(spec_get(*data, "hid_devices"@)) {
                Some(a) => hid_lines(a),
                None => Seq::empty(),
            },
        ),
{
    let items = match data.get("hid_devices") {
        Some(v) => match v.as_array() {
            Some(a) => a,
            None => {
                proof {
                    assert(lines_v(lines@) =~= lines_v(old(lines)@) + Seq::empty());
                }
                return;
            },
        },
        None => {
            proof {
                assert(lines_v(lines@) =~= lines_v(old(lines)@) + Seq::empty());
            }
            return;
        },
    };
    proof {
        reveal_strlit("");
        assert(""@ =~= Seq::<char>::empty());
        assert(opt_array(spec_get(*data, "hid_devices"@)) == Some(items@));
    }
    push_plain(lines, "");
    let mut h: Vec<Span> = Vec::new();
    push_span(&mut h, span("HID Devices (Gamepads/Controllers):", Style::YellowBold));
    proof {
        assert(line_v(h@) =~= seq![("HID Devices (Gamepads/Controllers):"@, Style::YellowBold)]);
    }
    push_line(lines, h);
    let ghost start = lines_v(lines@);
    proof {
        assert(start =~= lines_v(old(lines)@) + seq![plain_line(Seq::empty()), seq![("HID Devices (Gamepads/Controllers):"@, Style::YellowBold)]]);
    }
    if items.len() == 0 {
        push_plain(lines, "  No HID devices found");
    } else {
        let mut i: usize = 0;
        while i < items.len()
            invariant
                i <= items@.len(),
                lines_v(lines@) == start + hid_lines(items@.take(i as int)),
            decreases items@.len() - i,
        {
            let row = hid_device_row(&items[i]);
            push_line(lines, row);
            proof {
                assert(hid_lines(items@.take(i + 1)) =~= hid_lines(items@.take(i as int)).push(
                    hid_device_line(items@[i as int]),
                ));
            }
            i = i + 1;
        }
        proof {
            assert(items@.take(items@.len() as int) =~= items@);
        }
    }
    proof {
        assert(lines_v(lines@) =~= lines_v(old(lines)@) + section_spec(
            opt_array(spec_get(*data, "hid_devices"@)),
            ("HID Devices (Gamepads/Controllers):"@, Style::YellowBold),
            "  No HID devices found"@,
            hid_lines(items@),
        ));
    }
}

/// The lines of `list-devices` below its title.
pub fn device_list_lines(data: &JsonValue) -> (r: Vec<Vec<Span>>)
    ensures
        lines_v(r@) == device_list_spec(*data),
{
    let mut lines: Vec<Vec<Span>> = Vec::new();
    push_midi_section(&mut lines, data);
    push_hid_section(&mut lines, data);
    push_plain(&mut lines, "");
    proof {
        reveal_strlit("");
        assert(""@ =~= Seq::<char>::empty());
        assert(lines_v(lines@) =~= device_list_spec(*data));
    }
    lines
}

// ───────────────────────────── current device ─────────────────────────────

pub open spec fn opt_line(v: Option<Seq<char>>) -> Seq<Seq<(Seq<char>, Style)>> {
    match v {
        Some(t) => seq![plain_line(t)],
        None => Seq::empty(),
    }
}

/// The body of `get-device` for the daemon's `device` object at `now`
/// (Unix seconds): its status, name, port and the time since its last event.
pub open spec fn current_device_spec(dev: JsonValue, now: u64) -> Seq<Seq<(Seq<char>, Style)>> {
    seq![
        seq![
            ("Status:     "@, Style::Plain),
            if bool_field(dev, "connected"@) == Some(true) {
                ("Connected"@, Style::Green)
            } else {
                ("Disconnected"@, Style::Red)
            },
        ],
    ] + opt_line(
        match str_field(dev, "name"@) {
            Some(n) => Some("Name:       "@ + n),
            None => None,
        },
    ) + opt_line(
        match u64_field(dev, "port"@) {
            Some(p) => Some("Port:       "@ + dec(p as nat)),
            None => None,
        },
    ) + opt_line(
        match u64_field(dev, "last_event_at"@) {
            Some(t) => Some(
                "Last Event: "@ + format_duration_spec(
                    if now >= t {
                        (now - t) as nat
                    } else {
                        0
                    },
                ) + " ago"@,
            ),
            None => None,
        },
    ) + seq![plain_line(Seq::empty())]
}

/// The lines of `get-device` below its title, `now` being the current Unix
/// time in seconds.
pub fn current_device_lines(dev: &JsonValue, now: u64) -> (r: Vec<Vec<Span>>)
    ensures
        lines_v(r@) == current_device_spec(*dev, now),
{
    let mut lines: Vec<Vec<Span>> = Vec::new();
    let connected = match dev.get_bool("connected") {
        Some(b) => b,
        None => false,
    };
    let mut l: Vec<Span> = Vec::new();
    push_span(&mut l, span("Status:     ", Style::Plain));
    if connected {
        push_span(&mut l, span("Connected", Style::Green));
    } else {
        push_span(&mut l, span("Disconnected", Style::Red));
    }
    proof {
        assert(line_v(l@) =~= seq![
            ("Status:     "@, Style::Plain),
            if bool_field(*dev, "connected"@) == Some(true) {
                ("Connected"@, Style::Green)
            } else {
                ("Disconnected"@, Style::Red)
            },
        ]);
    }
    push_line(&mut lines, l);
    let ghost s1 = lines_v(lines@);
    proof {
        assert(s1 =~= seq![
            seq![
                ("Status:     "@, Style::Plain),
                if bool_field(*dev, "connected"@) == Some(true) {
                    ("Connected"@, Style::Green)
                } else {
                    ("Disconnected"@, Style::Red)
                },
            ],
        ]);
    }
    if let Some(name) = dev.get_str("name") {
        let mut t = String::from_str("Name:       ");
        t.append(name);
        push_plain(&mut lines, t.as_str());
    }
    let ghost s2 = lines_v(lines@);
    proof {
        assert(s2 =~= s1 + opt_line(
            match str_field(*dev, "name"@) {
                Some(n) => Some("Name:       "@ + n),
                None => None,
            },
        ));
    }
    if let Some(port) = dev.get_u64("port") {
        let mut t = String::from_str("Port:       ");
        append_dec(&mut t, port);
        push_plain(&mut lines, t.as_str());
    }
    let ghost s3 = lines_v(lines@);
    proof {
        assert(s3 =~= s2 + opt_line(
            match u64_field(*dev, "port"@) {
                Some(p) => Some("Port:       "@ + dec(p as nat)),
                None => None,
            },
        ));
    }
    if let Some(last) = dev.get_u64("last_event_at") {
        let ago = now.saturating_sub(last);
        let mut t = String::from_str("Last Event: ");
        let d = format_duration(ago);
        t.append(d.as_str());
        t.append(" ago");
        push_plain(&mut lines, t.as_str());
    }
    let ghost s4 = lines_v(lines@);
    proof {
        assert(s4 =~= s3 + opt_line(
            match u64_field(*dev, "last_event_at"@) {
                Some(t) => Some(
                    "Last Event: "@ + format_duration_spec(
                        if now >= t {
                            (now - t) as nat
                        } else {
                            0
                        },
                    ) + " ago"@,
                ),
                None => None,
            },
        ));
    }
    push_plain(&mut lines, "");
    proof {
        reveal_strlit("");
        assert(""@ =~= Seq::<char>::empty());
        assert(lines_v(lines@) =~= current_device_spec(*dev, now));
    }
    lines
}

// ───────────────────────────── network listeners ─────────────────────────────

/// The approval state shown for a listener: loopback listeners need no
/// approval; a tampered registry must be re-approved; otherwise approved,
/// or a prompt is required.
pub open spec fn listener_status_spec(is_loopback: bool, tampered: bool, approved: bool) -> (Seq<char>, Style) {
    if is_loopback {
        ("loopback (auto-approved)"@, Style::Dimmed)
    } else if tampered {
        ("REGISTRY TAMPERED — re-approve"@, Style::RedBold)
    } else if approved {
        ("approved"@, Style::Green)
    } else {
        ("PROMPT REQUIRED"@, Style::Yellow)
    }
}

pub fn listener_status(is_loopback: bool, tampered: bool, approved: bool) -> (r: (&'static str, Style))
    ensures
        (r.0@, r.1) == listener_status_spec(is_loopback, tampered, approved),
{
    if is_loopback {
        ("loopback (auto-approved)", Style::Dimmed)
    } else if tampered {
        ("REGISTRY TAMPERED — re-approve", Style::RedBold)
    } else if approved {
        ("approved", Style::Green)
    } else {
        ("PROMPT REQUIRED", Style::Yellow)
    }
}

/// A listener as the approval registry reports it.
pub struct ListenerInfo {
    pub alias: String,
    pub host: String,
    pub port: u16,
    pub is_loopback: bool,
    pub requires_amplification_ack: bool,
    pub approved: bool,
    pub registry_tampered: bool,
}

/// One row of `listener list` (alias padded to 20, then the state) or of
/// `listener status` (bold alias, `host:port` with the port padded to 6,
/// the state in brackets, and a note when amplification must be
/// acknowledged).
pub open spec fn listener_row_spec(l: ListenerInfo, detailed: bool) -> Seq<(Seq<char>, Style)> {
    let st = listener_status_spec(l.is_loopback, l.registry_tampered, l.approved);
    if detailed {
        seq![
            (pad_right(l.alias@, 20), Style::Bold),
            (" "@ + l.host@ + ":"@ + pad_right(dec(l.port as nat), 6) + " ["@, Style::Plain),
            st,
            ("]"@ + if l.requires_amplification_ack {
                "  (amplification ack required)"@
            } else {
                Seq::<char>::empty()
            }, Style::Plain),
        ]
    } else {
        seq![(pad_right(l.alias@, 20) + " "@, Style::Plain), st]
    }
}

pub fn listener_row(l: &ListenerInfo, detailed: bool) -> (r: Vec<Span>)
    ensures
        line_v(r@) == listener_row_spec(*l, detailed),
{
    let (label, style) = listener_status(l.is_loopback, l.registry_tampered, l.approved);
    let mut row: Vec<Span> = Vec::new();
    if detailed {
        let mut a = String::new();
        append_pad_right(&mut a, l.alias.as_str(), 20);
        push_span(&mut row, span_owned(a, Style::Bold));
        let mut t = String::from_str(" ");
        t.append(l.host.as_str());
        t.append(":");
        let mut p = String::new();
        append_dec(&mut p, l.port as u64);
        append_pad_right(&mut t, p.as_str(), 6);
        t.append(" [");
        push_span(&mut row, span_owned(t, Style::Plain));
        push_span(&mut row, span(label, style));
        let mut e = String::from_str("]");
        if l.requires_amplification_ack {
            e.append("  (amplification ack required)");
        }
        push_span(&mut row, span_owned(e, Style::Plain));
    } else {
        let mut a = String::new();
        append_pad_right(&mut a, l.alias.as_str(), 20);
        a.append(" ");
        push_span(&mut row, span_owned(a, Style::Plain));
        push_span(&mut row, span(label, style));
    }
    proof {
        assert(line_v(row@) =~= listener_row_spec(*l, detailed));
    }
    row
}

/// The lines of `listener list` / `listener status`.
pub fn listener_lines(ls: &Vec<ListenerInfo>, detailed: bool) -> (r: Vec<Vec<Span>>)
    ensures
        ls@.len() == 0 ==> lines_v(r@) == seq![plain_line("No network listeners configured."@)],
        ls@.len() > 0 ==> lines_v(r@) == ls@.map_values(|l: ListenerInfo| listener_row_spec(l, detailed)),
{
    let mut lines: Vec<Vec<Span>> = Vec::new();
    if ls.len() == 0 {
        push_plain(&mut lines, "No network listeners configured.");
        return lines;
    }
    let mut i: usize = 0;
    while i < ls.len()
        invariant
            i <= ls@.len(),
            lines_v(lines@) == ls@.take(i as int).map_values(|l: ListenerInfo| listener_row_spec(l, detailed)),
        decreases ls@.len() - i,
    {
        let row = listener_row(&ls[i], detailed);
        push_line(&mut lines, row);
        proof {
            assert(ls@.take(i + 1).map_values(|l: ListenerInfo| listener_row_spec(l, detailed)) =~= ls@.take(
                i as int,
            ).map_values(|l: ListenerInfo| listener_row_spec(l, detailed)).push(
                listener_row_spec(ls@[i as int], detailed),
            ));
        }
        i = i + 1;
    }
    proof {
        assert(ls@.take(ls@.len() as int) =~= ls@);
    }
    lines
}

/// What `listener approve` reports: a loopback listener needs no record;
/// otherwise the approval and where it applies.
pub fn approve_message(alias: &str, is_loopback: bool, host: &str, port: u16) -> (r: Vec<Span>)
    ensures
        line_v(r@) == seq![
            ("✓"@, Style::Green),
            (if is_loopback {
                " '"@ + alias@ + "' is loopback — already auto-approved (no record needed)."@
            } else {
                " approved listener '"@ + alias@ + "' ("@ + host@ + ":"@ + dec(port as nat)
                    + "). The daemon applies it on next (re)bind."@
            }, Style::Plain),
        ],
{
    let mut row: Vec<Span> = Vec::new();
    push_span(&mut row, span("✓", Style::Green));
    let mut t: String;
    if is_loopback {
        t = String::from_str(" '");
        t.append(alias);
        t.append("' is loopback — already auto-approved (no record needed).");
    } else {
        t = String::from_str(" approved listener '");
        t.append(alias);
        t.append("' (");
        t.append(host);
        t.append(":");
        append_dec(&mut t, port as u64);
        t.append("). The daemon applies it on next (re)bind.");
    }
    push_span(&mut row, span_owned(t, Style::Plain));
    row
}

/// What `listener deny` reports, depending on whether an approval was on
/// file.
pub fn deny_message(alias: &str, removed: bool) -> (r: Vec<Span>)
    ensures
        removed ==> line_v(r@) == seq![
            ("✓"@, Style::Green),
            (" revoked approval for listener '"@ + alias@ + "'."@, Style::Plain),
        ],
        !removed ==> line_v(r@) == plain_line("No approval on file for listener '"@ + alias@ + "'."@),
{
    let mut row: Vec<Span> = Vec::new();
    if removed {
        push_span(&mut row, span("✓", Style::Green));
        let mut t = String::from_str(" revoked approval for listener '");
        t.append(alias);
        t.append("'.");
        push_span(&mut row, span_owned(t, Style::Plain));
    } else {
        let mut t = String::from_str("No approval on file for listener '");
        t.append(alias);
        t.append("'.");
        push_span(&mut row, span_owned(t, Style::Plain));
    }
    row
}

// ───────────────────────────── HMAC key status ─────────────────────────────

/// How the key-rotation state is shown: `ok` in green when there is no
/// warning, a hard expiry in bold red, any other warning in yellow.
pub fn rotation_tag(warning: Option<&str>) -> (r: (String, Style))
    ensures
        match warning {
            None => r.0@ == "ok"@ && r.1 == Style::Green,
            Some(t) => r.0@ == t@ && r.1 == if t@ == "hard_expired"@ {
                Style::RedBold
            } else {
                Style::Yellow
            },
        },
{
    match warning {
        None => (String::from_str("ok"), Style::Green),
        Some(t) => {
            let style = if str_eq(t, "hard_expired") {
                Style::RedBold
            } else {
                Style::Yellow
            };
            (String::from_str(t), style)
        },
    }
}

} // verus!
