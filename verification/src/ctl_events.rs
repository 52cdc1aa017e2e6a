//! `conductorctl events`: duration arguments, the capture window, CSV export
//! of captured events, the follow-mode debounce, and the event filter that
//! the command line and a named config filter combine into.
use vstd::prelude::*;
use crate::text::{
    append_dec, contains_char, dec, has_char, parse_u64, parse_unsigned, push_char, strip_suffix_char,
    trim, trim_spec, zero_pad, pad_right, append_pad_right, append_dec_zero_pad, to_uppercase, uppercase,
};
use crate::json::{JsonValue, str_field, u64_field};
use crate::ctl_playback::{split_on, lemma_split_single, lemma_split_append};

verus! {

// ───────────────────────────── durations ─────────────────────────────

/// The number of seconds a duration argument such as `10s`, `1m`, `30` or
/// `2h` stands for, before any limit on the result: the trimmed text, with
/// one optional unit suffix (`s`, `m` or `h`) after a `u64` literal.
pub open spec fn duration_value(s: Seq<char>) -> Option<nat> {
    let t = trim_spec(s);
    if t.len() > 0 && t.last() == 's' {
        parse_unsigned(t.drop_last(), u64::MAX as nat)
    } else if t.len() > 0 && t.last() == 'm' {
        match parse_unsigned(t.drop_last(), u64::MAX as nat) {
            Some(v) => Some(v * 60),
            None => None,
        }
    } else if t.len() > 0 && t.last() == 'h' {
        match parse_unsigned(t.drop_last(), u64::MAX as nat) {
            Some(v) => Some(v * 3600),
            None => None,
        }
    } else {
        parse_unsigned(t, u64::MAX as nat)
    }
}

/// The minutes or hours a duration names fit in `u64` seconds. (Converting
/// a larger count overflows, which the command line does not survive.)
pub open spec fn duration_fits(s: Seq<char>) -> bool {
    match duration_value(s) {
        Some(v) => v <= u64::MAX,
        None => true,
    }
}

/// Whether converting the duration `s` to seconds stays within `u64`.
pub fn duration_str_fits(s: &str) -> (r: bool)
    ensures
        r == duration_fits(s@),
{
    let t = trim(s);
    if let Some(num) = strip_suffix_char(t, 'm') {
        if let Some(v) = parse_u64(num) {
            return v <= u64::MAX / 60;
        }
    } else if let Some(num) = strip_suffix_char(t, 'h') {
        if let Some(v) = parse_u64(num) {
            return v <= u64::MAX / 3600;
        }
    }
    true
}

/// Parse a duration string like "10s", "1m", "30" into seconds.
pub fn parse_duration_str(s: Option<&str>) -> (r: Option<u64>)
    requires
        s matches Some(t) ==> duration_fits(t@),
    ensures
        match s {
            None => r is None,
            Some(t) => match duration_value(t@) {
                Some(v) => r == Some(v as u64),
                None => r is None,
            },
        },
{
    let s = match s {
        Some(s) => s,
        None => return None,
    };
    let t = trim(s);
    if let Some(num) = strip_suffix_char(t, 's') {
        parse_u64(num)
    } else if let Some(num) = strip_suffix_char(t, 'm') {
        match parse_u64(num) {
            Some(m) => Some(m * 60),
            None => None,
        }
    } else if let Some(num) = strip_suffix_char(t, 'h') {
        match parse_u64(num) {
            Some(h) => Some(h * 3600),
            None => None,
        }
    } else {
        parse_u64(t)
    }
}

/// The error for an explicit `--duration` that is not a duration.
pub open spec fn invalid_duration_msg(s: Seq<char>) -> Seq<char> {
    "Invalid --duration value '"@ + s + "'. Use e.g. 30s, 5m, 1h"@
}

/// Resolve the snapshot/export capture window (seconds) from `--duration`:
/// two seconds when it is omitted, an error when it is given but is not a
/// duration.
pub fn resolve_capture_secs(duration: Option<&str>) -> (r: Result<u64, String>)
    requires
        duration matches Some(t) ==> duration_fits(t@),
    ensures
        match duration {
            None => r == Ok::<u64, String>(2),
            Some(t) => match duration_value(t@) {
                Some(v) => r matches Ok(x) && x == v,
                None => r matches Err(e) && e@ == invalid_duration_msg(t@),
            },
        },
{
    match duration {
        None => Ok(2),
        Some(s) => match parse_duration_str(Some(s)) {
            Some(v) => Ok(v),
            None => {
                let mut e = String::from_str("Invalid --duration value '");
                e.append(s);
                e.append("'. Use e.g. 30s, 5m, 1h");
                Err(e)
            },
        },
    }
}

/// The banner shown before a snapshot capture.
pub open spec fn capture_banner_spec(secs: u64) -> Seq<char> {
    "Monitoring events for "@ + dec(secs as nat) + (if secs == 1 {
        " second..."@
    } else {
        " seconds..."@
    })
}

pub fn capture_banner(secs: u64) -> (r: String)
    ensures
        r@ == capture_banner_spec(secs),
{
    let mut s = String::from_str("Monitoring events for ");
    append_dec(&mut s, secs);
    if secs == 1 {
        s.append(" second...");
    } else {
        s.append(" seconds...");
    }
    s
}

// ───────────────────────────── CSV export ─────────────────────────────

/// `s` with every `"` doubled.
pub open spec fn double_quotes(s: Seq<char>) -> Seq<char>
    decreases s.len(),
{
    if s.len() == 0 {
        Seq::empty()
    } else {
        double_quotes(s.drop_last()) + (if s.last() == '"' {
            seq!['"', '"']
        } else {
            seq![s.last()]
        })
    }
}

/// CSV field escaping: a field holding a comma, a quote or a newline is
/// wrapped in quotes, with its quotes doubled; any other field is kept.
pub open spec fn csv_escape_spec(s: Seq<char>) -> Seq<char> {
    if has_char(s, ',') || has_char(s, '"') || has_char(s, '\n') {
        seq!['"'] + double_quotes(s) + seq!['"']
    } else {
        s
    }
}

/// CSV-safe string escaping: wraps in quotes if value contains comma, quote, or newline
pub fn csv_escape(s: &str) -> (r: String)
    ensures
        r@ == csv_escape_spec(s@),
{
    if contains_char(s, ',') || contains_char(s, '"') || contains_char(s, '\n') {
        let mut out = String::new();
        push_char(&mut out, '"');
        let len = s.unicode_len();
        let mut i: usize = 0;
        while i < len
            invariant
                len == s@.len(),
                i <= len,
                out@ == seq!['"'] + double_quotes(s@.take(i as int)),
            decreases len - i,
        {
            let c = s.get_char(i);
            proof {
                assert(s@.take(i + 1).drop_last() =~= s@.take(i as int));
                assert(s@.take(i + 1).last() == c);
            }
            if c == '"' {
                push_char(&mut out, '"');
                push_char(&mut out, '"');
            } else {
                push_char(&mut out, c);
            }
            i = i + 1;
            proof {
                assert(out@ =~= seq!['"'] + double_quotes(s@.take(i as int)));
            }
        }
        push_char(&mut out, '"');
        proof {
            assert(s@.take(len as int) =~= s@);
        }
        out
    } else {
        String::from_str(s)
    }
}

/// Standard CSV column order for event export (shared between CLI and GUI).
pub open spec fn csv_header_spec() -> Seq<char> {
    "timestamp_ms,event_type,device_id,channel,note,velocity,cc,value,button,axis"@
}

/// The CSV header line of an event export.
pub fn csv_header() -> (r: String)
    ensures
        r@ == csv_header_spec(),
{
    String::from_str("timestamp_ms,event_type,device_id,channel,note,velocity,cc,value,button,axis")
}

/// A numeric CSV column: the field as a `u64` in decimal, or empty.
pub open spec fn csv_num(e: JsonValue, key: Seq<char>) -> Seq<char> {
    match u64_field(e, key) {
        Some(v) => dec(v as nat),
        None => Seq::empty(),
    }
}

/// A text CSV column: the field as a string, escaped; empty when missing.
pub open spec fn csv_str(e: JsonValue, key: Seq<char>) -> Seq<char> {
    match str_field(e, key) {
        Some(s) => csv_escape_spec(s),
        None => Seq::empty(),
    }
}

/// One event as a CSV row in the order of the header.
pub open spec fn csv_row_spec(e: JsonValue) -> Seq<char> {
    csv_num(e, "timestamp_ms"@) + ","@ + csv_str(e, "event_type"@) + ","@ + csv_str(e, "device_id"@)
        + ","@ + csv_num(e, "channel"@) + ","@ + csv_num(e, "note"@) + ","@ + csv_num(e, "velocity"@)
        + ","@ + csv_num(e, "cc"@) + ","@ + csv_num(e, "value"@) + ","@ + csv_num(e, "button"@) + ","@
        + csv_num(e, "axis"@)
}

fn append_csv_num(out: &mut String, e: &JsonValue, key: &str)
    ensures
        final(out)@ == old(out)@ + csv_num(*e, key@),
{
    match e.get_u64(key) {
        Some(v) => append_dec(out, v),
        None => {
            proof {
                assert(old(out)@ + csv_num(*e, key@) =~= old(out)@);
            }
        },
    }
}

fn append_csv_str(out: &mut String, e: &JsonValue, key: &str)
    ensures
        final(out)@ == old(out)@ + csv_str(*e, key@),
{
    match e.get_str(key) {
        Some(s) => {
            let esc = csv_escape(s);
            out.append(esc.as_str());
        },
        None => {
            proof {
                assert(old(out)@ + csv_str(*e, key@) =~= old(out)@);
            }
        },
    }
}

proof fn lemma_dec_has_no_comma(n: nat)
    ensures
        !has_char(dec(n), ','),
    decreases n,
{
    if n >= 10 {
        lemma_dec_has_no_comma(n / 10);
        let d = dec(n / 10);
        assert forall|i: int| 0 <= i < dec(n).len() implies dec(n)[i] != ',' by {
            if i < d.len() {
                assert(dec(n)[i] == d[i]);
            }
        }
    }
}

proof fn lemma_double_quotes_no_comma(t: Seq<char>)
    requires
        !has_char(t, ','),
    ensures
        !has_char(double_quotes(t), ','),
    decreases t.len(),
{
    if t.len() > 0 {
        assert(!has_char(t.drop_last(), ',')) by {
            if has_char(t.drop_last(), ',') {
                let i = choose|i: int| 0 <= i < t.drop_last().len() && t.drop_last()[i] == ',';
                assert(t[i] == ',');
            }
        }
        lemma_double_quotes_no_comma(t.drop_last());
        assert(t[t.len() - 1] != ',');
        let a = double_quotes(t.drop_last());
        let b = if t.last() == '"' {
            seq!['"', '"']
        } else {
            seq![t.last()]
        };
        assert forall|i: int| 0 <= i < (a + b).len() implies (a + b)[i] != ',' by {
            if i < a.len() {
                assert((a + b)[i] == a[i]);
            } else {
                assert((a + b)[i] == b[i - a.len()]);
            }
        }
    }
}

proof fn lemma_num_cell_no_comma(e: JsonValue, key: Seq<char>)
    ensures
        !has_char(csv_num(e, key), ','),
{
    match u64_field(e, key) {
        Some(v) => lemma_dec_has_no_comma(v as nat),
        None => {},
    }
}

proof fn lemma_str_cell_no_comma(e: JsonValue, key: Seq<char>)
    requires
        str_field(e, key) matches Some(t) ==> !has_char(t, ','),
    ensures
        !has_char(csv_str(e, key), ','),
{
    match str_field(e, key) {
        Some(t) => {
            if has_char(t, ',') || has_char(t, '"') || has_char(t, '\n') {
                lemma_double_quotes_no_comma(t);
                let q = seq!['"'] + double_quotes(t) + seq!['"'];
                assert forall|i: int| 0 <= i < q.len() implies q[i] != ',' by {
                    if 0 < i < q.len() - 1 {
                        assert(q[i] == double_quotes(t)[i - 1]);
                    }
                }
            }
        },
        None => {},
    }
}

/// Ten cells joined by commas, in order.
pub open spec fn comma_joined(c: Seq<Seq<char>>) -> Seq<char> {
    c[0] + ","@ + c[1] + ","@ + c[2] + ","@ + c[3] + ","@ + c[4] + ","@ + c[5] + ","@ + c[6] + ","@ + c[7] + ","@
        + c[8] + ","@ + c[9]
}

/// Ten cells without commas, joined by commas, split back into the same
/// ten cells.
proof fn lemma_split_joined(c: Seq<Seq<char>>)
    requires
        c.len() == 10,
        forall|k: int| 0 <= k < 10 ==> !has_char(#[trigger] c[k], ','),
    ensures
        split_on(comma_joined(c), ',') == c,
{
    reveal_strlit(",");
    let comma = seq![','];
    assert(","@ == comma);
    let p0 = c[0];
    let p1 = p0 + comma + c[1];
    let p2 = p1 + comma + c[2];
    let p3 = p2 + comma + c[3];
    let p4 = p3 + comma + c[4];
    let p5 = p4 + comma + c[5];
    let p6 = p5 + comma + c[6];
    let p7 = p6 + comma + c[7];
    let p8 = p7 + comma + c[8];
    let p9 = p8 + comma + c[9];
    assert(comma_joined(c) == p9);
    assert(!has_char(c[0], ',') && !has_char(c[1], ',') && !has_char(c[2], ',') && !has_char(c[3], ','));
    assert(!has_char(c[4], ',') && !has_char(c[5], ',') && !has_char(c[6], ',') && !has_char(c[7], ','));
    assert(!has_char(c[8], ',') && !has_char(c[9], ','));
    lemma_split_single(p0, ',');
    lemma_split_append(p0, c[1], ',');
    lemma_split_append(p1, c[2], ',');
    lemma_split_append(p2, c[3], ',');
    lemma_split_append(p3, c[4], ',');
    lemma_split_append(p4, c[5], ',');
    lemma_split_append(p5, c[6], ',');
    lemma_split_append(p6, c[7], ',');
    lemma_split_append(p7, c[8], ',');
    lemma_split_append(p8, c[9], ',');
    assert(split_on(p9, ',') =~= c);
}

/// The export's column names.
pub open spec fn csv_columns() -> Seq<Seq<char>> {
    seq![
        "timestamp_ms"@,
        "event_type"@,
        "device_id"@,
        "channel"@,
        "note"@,
        "velocity"@,
        "cc"@,
        "value"@,
        "button"@,
        "axis"@,
    ]
}

proof fn lemma_header_columns()
    ensures
        split_on(csv_header_spec(), ',') == csv_columns(),
        csv_columns()[0].len() == 12 && csv_columns()[1].len() == 10 && csv_columns()[2].len() == 9,
        csv_columns()[3].len() == 7 && csv_columns()[4].len() == 4 && csv_columns()[5].len() == 8,
        csv_columns()[6].len() == 2 && csv_columns()[7].len() == 5 && csv_columns()[8].len() == 6,
        csv_columns()[9].len() == 4,
{
    reveal_strlit(",");
    reveal_strlit("timestamp_ms");
    reveal_strlit("event_type");
    reveal_strlit("device_id");
    reveal_strlit("channel");
    reveal_strlit("note");
    reveal_strlit("velocity");
    reveal_strlit("cc");
    reveal_strlit("value");
    reveal_strlit("button");
    reveal_strlit("axis");
    reveal_strlit("timestamp_ms,event_type,device_id,channel,note,velocity,cc,value,button,axis");
    let c = csv_columns();
    assert(csv_header_spec() =~= comma_joined(c));
    assert forall|k: int| 0 <= k < 10 implies !has_char(#[trigger] c[k], ',') by {
        if has_char(c[k], ',') {
            let i = choose|i: int| 0 <= i < c[k].len() && c[k][i] == ',';
            assert(c[k][i] != ',');
        }
    }
    lemma_split_joined(c);
}

/// The cells of an event's row, in the header's order.
proof fn lemma_row_cells(e: JsonValue)
    requires
        str_field(e, "event_type"@) matches Some(t) ==> !has_char(t, ','),
        str_field(e, "device_id"@) matches Some(t) ==> !has_char(t, ','),
    ensures
        split_on(csv_row_spec(e), ',') == seq![
            csv_num(e, "timestamp_ms"@),
            csv_str(e, "event_type"@),
            csv_str(e, "device_id"@),
            csv_num(e, "channel"@),
            csv_num(e, "note"@),
            csv_num(e, "velocity"@),
            csv_num(e, "cc"@),
            csv_num(e, "value"@),
            csv_num(e, "button"@),
            csv_num(e, "axis"@),
        ],
{
    let c = seq![
        csv_num(e, "timestamp_ms"@),
        csv_str(e, "event_type"@),
        csv_str(e, "device_id"@),
        csv_num(e, "channel"@),
        csv_num(e, "note"@),
        csv_num(e, "velocity"@),
        csv_num(e, "cc"@),
        csv_num(e, "value"@),
        csv_num(e, "button"@),
        csv_num(e, "axis"@),
    ];
    lemma_num_cell_no_comma(e, "timestamp_ms"@);
    lemma_str_cell_no_comma(e, "event_type"@);
    lemma_str_cell_no_comma(e, "device_id"@);
    lemma_num_cell_no_comma(e, "channel"@);
    lemma_num_cell_no_comma(e, "note"@);
    lemma_num_cell_no_comma(e, "velocity"@);
    lemma_num_cell_no_comma(e, "cc"@);
    lemma_num_cell_no_comma(e, "value"@);
    lemma_num_cell_no_comma(e, "button"@);
    lemma_num_cell_no_comma(e, "axis"@);
    assert(csv_row_spec(e) == comma_joined(c));
    lemma_split_joined(c);
}

/// Each CSV row lines up with the header: split at its commas (when the
/// text fields hold none), the row has one cell per header column, and the
/// cell under each column name is that field of the event: a numeric
/// field in decimal (empty when absent), a text field as written (escaped).
pub proof fn csv_row_lines_up_with_header(e: JsonValue)
    requires
        str_field(e, "event_type"@) matches Some(t) ==> !has_char(t, ','),
        str_field(e, "device_id"@) matches Some(t) ==> !has_char(t, ','),
    ensures
        ({
            let names = split_on(csv_header_spec(), ',');
            let cells = split_on(csv_row_spec(e), ',');
            &&& names.len() == 10
            &&& cells.len() == 10
            &&& forall|k: int|
                0 <= k < 10 && names[k] != "event_type"@ && names[k] != "device_id"@ ==> #[trigger] cells[k]
                    == match u64_field(e, names[k]) {
                    Some(v) => dec(v as nat),
                    None => Seq::<char>::empty(),
                }
            &&& forall|k: int|
                0 <= k < 10 && (names[k] == "event_type"@ || names[k] == "device_id"@) ==> #[trigger] cells[k]
                    == match str_field(e, names[k]) {
                    Some(t) => csv_escape_spec(t),
                    None => Seq::<char>::empty(),
                }
        }),
{
    lemma_header_columns();
    lemma_row_cells(e);
    let names = split_on(csv_header_spec(), ',');
    let cells = split_on(csv_row_spec(e), ',');
    assert(names == csv_columns());
    assert("event_type"@ == csv_columns()[1] && "device_id"@ == csv_columns()[2]);
    assert forall|k: int|
        0 <= k < 10 && names[k] != "event_type"@ && names[k] != "device_id"@ implies #[trigger] cells[k]
            == match u64_field(e, names[k]) {
            Some(v) => dec(v as nat),
            None => Seq::<char>::empty(),
        } by {
        assert(k != 1 && k != 2);
    }
    assert forall|k: int|
        0 <= k < 10 && (names[k] == "event_type"@ || names[k] == "device_id"@) implies #[trigger] cells[k]
            == match str_field(e, names[k]) {
            Some(t) => csv_escape_spec(t),
            None => Seq::<char>::empty(),
        } by {
        assert(names[k].len() == 10 || names[k].len() == 9);
        assert(k == 1 || k == 2);
    }
}

/// Render one event as a CSV row (`format_event_csv_row`).
pub fn format_event_csv_row(e: &JsonValue) -> (r: String)
    ensures
        r@ == csv_row_spec(*e),
{
    let mut out = String::new();
    append_csv_num(&mut out, e, "timestamp_ms");
    out.append(",");
    append_csv_str(&mut out, e, "event_type");
    out.append(",");
    append_csv_str(&mut out, e, "device_id");
    out.append(",");
    append_csv_num(&mut out, e, "channel");
    out.append(",");
    append_csv_num(&mut out, e, "note");
    out.append(",");
    append_csv_num(&mut out, e, "velocity");
    out.append(",");
    append_csv_num(&mut out, e, "cc");
    out.append(",");
    append_csv_num(&mut out, e, "value");
    out.append(",");
    append_csv_num(&mut out, e, "button");
    out.append(",");
    append_csv_num(&mut out, e, "axis");
    proof {
        assert(out@ =~= csv_row_spec(*e));
    }
    out
}

/// The rows of `events`, each followed by a newline.
pub open spec fn csv_rows(events: Seq<JsonValue>) -> Seq<char>
    decreases events.len(),
{
    if events.len() == 0 {
        Seq::empty()
    } else {
        csv_rows(events.drop_last()) + csv_row_spec(events.last()) + "\n"@
    }
}

/// The whole CSV export file: the header line, then one line per event.
pub open spec fn csv_document(events: Seq<JsonValue>) -> Seq<char> {
    csv_header_spec() + "\n"@ + csv_rows(events)
}

/// The content `export_events` writes to a `.csv` path.
pub fn events_csv(events: &Vec<JsonValue>) -> (r: String)
    ensures
        r@ == csv_document(events@),
{
    let mut out = csv_header();
    out.append("\n");
    let n = events.len();
    let mut i: usize = 0;
    while i < n
        invariant
            n == events@.len(),
            i <= n,
            out@ == csv_header_spec() + "\n"@ + csv_rows(events@.take(i as int)),
        decreases n - i,
    {
        let row = format_event_csv_row(&events[i]);
        out.append(row.as_str());
        out.append("\n");
        proof {
            assert(events@.take(i + 1).drop_last() =~= events@.take(i as int));
            assert(events@.take(i + 1).last() == events@[i as int]);
        }
        i = i + 1;
        proof {
            assert(out@ =~= csv_header_spec() + "\n"@ + csv_rows(events@.take(i as int)));
        }
    }
    proof {
        assert(events@.take(n as int) =~= events@);
    }
    out
}

// ───────────────────────────── follow mode ─────────────────────────────

/// The debounce decision of follow mode for one event with timestamp `ts`
/// (0 when the event carries none), given the timestamp `last` of the last
/// event shown (0 before any): whether to show it, and the new `last`.
pub open spec fn debounce_spec(ts: u64, last: u64, debounce_ms: Option<u64>) -> (bool, u64) {
    match debounce_ms {
        None => (true, last),
        Some(db) => if ts > 0 && last > 0 && (if ts >= last { ts - last } else { 0 }) < db {
            (false, last)
        } else if ts > 0 {
            (true, ts)
        } else {
            (true, last)
        },
    }
}

/// Follow-mode debounce: skip an event that comes less than `debounce_ms`
/// after the last one shown.
pub fn debounce_step(ts: u64, last: u64, debounce_ms: Option<u64>) -> (r: (bool, u64))
    ensures
        r == debounce_spec(ts, last, debounce_ms),
{
    match debounce_ms {
        None => (true, last),
        Some(db) => {
            if ts > 0 && last > 0 && ts.saturating_sub(last) < db {
                (false, last)
            } else if ts > 0 {
                (true, ts)
            } else {
                (true, last)
            }
        },
    }
}

/// Two events that were both shown are at least the debounce window apart
/// whenever both carry a timestamp and the second is not earlier.
pub proof fn debounce_spacing(ts: u64, last: u64, db: u64)
    requires
        last > 0,
        ts >= last,
        debounce_spec(ts, last, Some(db)).0,
    ensures
        ts == 0 || ts - last >= db,
{
}

// ───────────────────────────── filters ─────────────────────────────

/// The criteria an event must meet to be shown.
pub struct EventFilter {
    pub event_type: Option<String>,
    /// Zero-based MIDI channel.
    pub channel: Option<u8>,
    pub note_min: Option<u8>,
    pub note_max: Option<u8>,
    pub device_id: Option<String>,
    /// Only events at or after this Unix time in milliseconds.
    pub since_ms: Option<u64>,
}

/// A filter stored under a name in the config's event console section.
pub struct NamedFilter {
    pub event_type: Option<String>,
    pub channel: Option<u8>,
    pub note_min: Option<u8>,
    pub note_max: Option<u8>,
    pub device_id: Option<String>,
}

/// The command line takes channels 1-16; the filter holds 0-15.
pub fn cli_channel_to_filter(ch: Option<u8>) -> (r: Option<u8>)
    ensures
        match ch {
            Some(c) => r == Some(if c > 0 { (c - 1) as u8 } else { 0u8 }),
            None => r is None,
        },
{
    match ch {
        Some(c) => Some(c.saturating_sub(1)),
        None => None,
    }
}

/// The `--since` cutoff: `secs` seconds before `now_ms`, clamped at 0.
pub fn since_cutoff_ms(now_ms: u64, secs: u64) -> (r: u64)
    ensures
        r as int == if secs * 1000 > u64::MAX {
            0
        } else if now_ms >= secs * 1000 {
            now_ms - secs * 1000
        } else {
            0
        },
{
    let window: u64 = match secs.checked_mul(1000) {
        Some(w) => w,
        None => u64::MAX,
    };
    proof {
        assert(secs * 1000 > u64::MAX ==> now_ms <= window);
    }
    now_ms.saturating_sub(window)
}

fn clone_opt_string(s: &Option<String>) -> (r: Option<String>)
    ensures
        match s {
            Some(x) => r matches Some(y) && y@ == x@,
            None => r is None,
        },
{
    match s {
        Some(x) => Some(String::from_str(x.as_str())),
        None => None,
    }
}

/// Same content, seen through the views of the strings.
pub open spec fn opt_view(s: Option<String>) -> Option<Seq<char>> {
    match s {
        Some(x) => Some(x@),
        None => None,
    }
}

/// Fill the fields the command line left unset from a named filter; the
/// command line's own values win, and `since_ms` is kept.
pub fn merge_named_filter(filter: &mut EventFilter, named: &NamedFilter)
    ensures
        opt_view(final(filter).event_type) == if old(filter).event_type is Some {
            opt_view(old(filter).event_type)
        } else {
            opt_view(named.event_type)
        },
        final(filter).channel == if old(filter).channel is Some {
            old(filter).channel
        } else {
            named.channel
        },
        final(filter).note_min == if old(filter).note_min is Some {
            old(filter).note_min
        } else {
            named.note_min
        },
        final(filter).note_max == if old(filter).note_max is Some {
            old(filter).note_max
        } else {
            named.note_max
        },
        opt_view(final(filter).device_id) == if old(filter).device_id is Some {
            opt_view(old(filter).device_id)
        } else {
            opt_view(named.device_id)
        },
        final(filter).since_ms == old(filter).since_ms,
{
    if filter.event_type.is_none() {
        filter.event_type = clone_opt_string(&named.event_type);
    }
    if filter.channel.is_none() {
        filter.channel = named.channel;
    }
    if filter.note_min.is_none() {
        filter.note_min = named.note_min;
    }
    if filter.note_max.is_none() {
        filter.note_max = named.note_max;
    }
    if filter.device_id.is_none() {
        filter.device_id = clone_opt_string(&named.device_id);
    }
}

/// Merging a named filter never overrides a criterion the command line set.
pub proof fn merge_keeps_cli_values(before: EventFilter, after: EventFilter, named: NamedFilter)
    requires
        opt_view(after.event_type) == if before.event_type is Some {
            opt_view(before.event_type)
        } else {
            opt_view(named.event_type)
        },
        after.channel == if before.channel is Some {
            before.channel
        } else {
            named.channel
        },
    ensures
        before.event_type is Some ==> opt_view(after.event_type) == opt_view(before.event_type),
        before.channel is Some ==> after.channel == before.channel,
        before.event_type is None ==> opt_view(after.event_type) == opt_view(named.event_type),
{
}


// ───────────────────────────── the command line's filter ─────────────────────────────

/// The error for a `--since` that is not a duration.
pub open spec fn invalid_since_msg(s: Seq<char>) -> Seq<char> {
    "Invalid --since value '"@ + s + "'. Use e.g. 30s, 5m, 1h"@
}

pub open spec fn ov(s: Option<String>) -> Option<Seq<char>> {
    match s {
        Some(x) => Some(x@),
        None => None,
    }
}

pub open spec fn osv(s: Option<&str>) -> Option<Seq<char>> {
    match s {
        Some(x) => Some(x@),
        None => None,
    }
}

/// The filter the `events` flags ask for, at time `now_ms`: channels given
/// 1-16 become 0-15, and `--since` becomes a cutoff that many seconds before
/// now.
pub fn build_event_filter(
    event_type: Option<&str>,
    channel: Option<u8>,
    note_min: Option<u8>,
    note_max: Option<u8>,
    device: Option<&str>,
    since: Option<&str>,
    now_ms: u64,
) -> (r: Result<EventFilter, String>)
    requires
        since matches Some(t) ==> duration_fits(t@),
    ensures
        since matches Some(t) ==> (duration_value(t@) is None <==> r is Err),
        r matches Err(m) ==> (since matches Some(t) && m@ == invalid_since_msg(t@)),
        r matches Ok(f) ==> {
            &&& ov(f.event_type) == osv(event_type)
            &&& f.channel == match channel {
                Some(c) => Some(if c > 0 {
                    (c - 1) as u8
                } else {
                    0u8
                }),
                None => None,
            }
            &&& f.note_min == note_min
            &&& f.note_max == note_max
            &&& ov(f.device_id) == osv(device)
            &&& match since {
                None => f.since_ms is None,
                Some(t) => f.since_ms matches Some(c) && c as int == if duration_value(t@)->0 * 1000
                    > u64::MAX {
                    0
                } else if now_ms >= duration_value(t@)->0 * 1000 {
                    now_ms - duration_value(t@)->0 * 1000
                } else {
                    0
                },
            }
        },
{
    let since_ms = match since {
        Some(s) => match parse_duration_str(Some(s)) {
            Some(secs) => Some(since_cutoff_ms(now_ms, secs)),
            None => {
                let mut m = String::from_str("Invalid --since value '");
                m.append(s);
                m.append("'. Use e.g. 30s, 5m, 1h");
                return Err(m);
            },
        },
        None => None,
    };
    Ok(
        EventFilter {
            event_type: match event_type {
                Some(t) => Some(String::from_str(t)),
                None => None,
            },
            channel: cli_channel_to_filter(channel),
            note_min,
            note_max,
            device_id: match device {
                Some(d) => Some(String::from_str(d)),
                None => None,
            },
            since_ms,
        },
    )
}

/// The error when `--filter` names no filter of the config.
pub fn named_filter_missing(name: &str) -> (r: String)
    ensures
        r@ == "Named filter '"@ + name@ + "' not found in [event_console.filters] config"@,
{
    let mut m = String::from_str("Named filter '");
    m.append(name);
    m.append("' not found in [event_console.filters] config");
    m
}

/// Whether any criterion is set (an event the daemon's filter cannot read
/// is then skipped rather than shown).
pub open spec fn has_active_filter(f: EventFilter) -> bool {
    f.event_type is Some || f.channel is Some || f.note_min is Some || f.note_max is Some
        || f.device_id is Some || f.since_ms is Some
}

/// Whether an event passes: the daemon's verdict when the event could be
/// read as a monitor event (`verdict`), else only when no filter is active.
pub fn event_passes(filter: &EventFilter, verdict: Option<bool>) -> (r: bool)
    ensures
        r == match verdict {
            Some(m) => m,
            None => !has_active_filter(*filter),
        },
{
    match verdict {
        Some(m) => m,
        None => !(filter.event_type.is_some() || filter.channel.is_some() || filter.note_min.is_some()
            || filter.note_max.is_some() || filter.device_id.is_some() || filter.since_ms.is_some()),
    }
}

// ───────────────────────────── snapshot capture ─────────────────────────────

/// The positions of the events that pass, in order.
pub open spec fn passing(passes: Seq<bool>) -> Seq<int>
    decreases passes.len(),
{
    if passes.len() == 0 {
        Seq::empty()
    } else {
        passing(passes.drop_last()) + if passes.last() {
            seq![passes.len() - 1]
        } else {
            Seq::<int>::empty()
        }
    }
}

proof fn lemma_passing_bounds(passes: Seq<bool>)
    ensures
        passing(passes).len() <= passes.len(),
        forall|k: int| 0 <= k < passing(passes).len() ==> 0 <= #[trigger] passing(passes)[k] < passes.len(),
    decreases passes.len(),
{
    if passes.len() > 0 {
        lemma_passing_bounds(passes.drop_last());
    }
}

/// The events a snapshot keeps: those that pass, at most `limit` of them
/// when shown on the terminal, all of them when exported to a file.
pub open spec fn snapshot_spec(passes: Seq<bool>, limit: nat, exporting: bool) -> Seq<int> {
    if exporting || passing(passes).len() <= limit {
        passing(passes)
    } else {
        passing(passes).take(limit as int)
    }
}

/// Choose the captured events of a snapshot (`passes[i]`: whether event `i`
/// passes the filter): `--limit` bounds the terminal display only; a file
/// export keeps the whole window.
pub fn select_snapshot(passes: &Vec<bool>, limit: usize, exporting: bool) -> (r: Vec<usize>)
    ensures
        r@.map_values(|i: usize| i as int) == snapshot_spec(passes@, limit as nat, exporting),
{
    let mut out: Vec<usize> = Vec::new();
    let n = passes.len();
    let mut i: usize = 0;
    let mut count: usize = 0;
    proof {
        assert(passes@.take(n as int) =~= passes@);
        assert(passes@.take(0) =~= Seq::<bool>::empty());
        assert(out@.map_values(|k: usize| k as int) =~= Seq::<int>::empty());
    }
    while i < n
        invariant_except_break
            n == passes@.len(),
            passes@.take(n as int) == passes@,
            i <= n,
            count == out@.len(),
            count <= i,
            out@.map_values(|k: usize| k as int) == passing(passes@.take(i as int)),
            !exporting ==> count <= limit,
        ensures
            out@.map_values(|k: usize| k as int) == snapshot_spec(passes@, limit as nat, exporting),
        decreases n - i,
    {
        proof {
            lemma_passing_prefix(passes@, i as int);
        }
        if !exporting && count >= limit {
            proof {
                let all = passing(passes@);
                assert(all.take(limit as int) == passing(passes@.take(i as int)));
                if all.len() <= limit {
                    assert(all.take(limit as int) =~= all);
                }
            }
            break;
        }
        let ghost before = out@;
        if passes[i] {
            out.push(i);
            count = count + 1;
            proof {
                assert(out@.map_values(|k: usize| k as int) =~= before.map_values(|k: usize| k as int).push(
                    i as int,
                ));
            }
        }
        i = i + 1;
    }
    out
}

proof fn lemma_passing_prefix(passes: Seq<bool>, i: int)
    requires
        0 <= i <= passes.len(),
    ensures
        passing(passes).take(passing(passes.take(i)).len() as int) == passing(passes.take(i)),
        passing(passes.take(i)).len() <= passing(passes).len(),
        i < passes.len() ==> passing(passes.take(i + 1)) == passing(passes.take(i)) + if passes[i] {
            seq![i]
        } else {
            Seq::<int>::empty()
        },
    decreases passes.len() - i,
{
    if i == passes.len() {
        assert(passes.take(i) =~= passes);
        assert(passing(passes).take(passing(passes).len() as int) =~= passing(passes));
    } else {
        assert(passes.take(i + 1).drop_last() =~= passes.take(i));
        assert(passes.take(i + 1).last() == passes[i]);
        lemma_passing_prefix(passes, i + 1);
        let a = passing(passes.take(i));
        let b = passing(passes.take(i + 1));
        let all = passing(passes);
        assert(b.take(a.len() as int) =~= a);
        assert(all.take(a.len() as int) =~= all.take(b.len() as int).take(a.len() as int));
    }
}

/// The closing line of a snapshot: how many events were exported or
/// captured.
pub fn capture_summary(exported_to: Option<&str>, count: usize) -> (r: String)
    ensures
        r@ == match exported_to {
            Some(p) => dec(count as nat) + " event(s) exported to "@ + p@,
            None => if count == 0 {
                "No events captured."@
            } else {
                dec(count as nat) + " event(s) captured."@
            },
        },
{
    match exported_to {
        Some(p) => {
            let mut s = String::new();
            append_dec(&mut s, count as u64);
            s.append(" event(s) exported to ");
            s.append(p);
            s
        },
        None => if count == 0 {
            String::from_str("No events captured.")
        } else {
            let mut s = String::new();
            append_dec(&mut s, count as u64);
            s.append(" event(s) captured.");
            s
        },
    }
}


// ───────────────────────────── text display ─────────────────────────────

pub open spec fn u64_or_zero(e: JsonValue, key: Seq<char>) -> nat {
    match u64_field(e, key) {
        Some(v) => v as nat,
        None => 0,
    }
}

/// A `label:value` detail, the value left-aligned in `width` columns; empty
/// when the field is missing.
pub open spec fn detail(e: JsonValue, key: Seq<char>, label: Seq<char>, width: nat) -> Seq<char> {
    match u64_field(e, key) {
        Some(v) => label + pad_right(dec(v as nat), width),
        None => Seq::empty(),
    }
}

/// The details column of an event: note, velocity, cc, value, button and
/// axis when present, and the channel when above 0.
pub open spec fn details_spec(e: JsonValue) -> Seq<char> {
    detail(e, "note"@, "note:"@, 4) + detail(e, "velocity"@, "vel:"@, 4) + detail(e, "cc"@, "cc:"@, 4)
        + detail(e, "value"@, "val:"@, 4) + detail(e, "button"@, "btn:"@, 4) + detail(
        e,
        "axis"@,
        "axis:"@,
        4,
    ) + match u64_field(e, "channel"@) {
        Some(ch) => if ch > 0 {
            "ch:"@ + pad_right(dec(ch as nat), 3)
        } else {
            Seq::empty()
        },
        None => Seq::empty(),
    }
}

/// The profiling column: processing time and memory (the memory figure,
/// in MB with one decimal, is rendered by the caller).
pub open spec fn profiling_spec(e: JsonValue, mem_mb: Option<Seq<char>>) -> Seq<char> {
    let prof = (match u64_field(e, "processing_us"@) {
        Some(p) => "proc:"@ + dec(p as nat) + "us "@,
        None => Seq::empty(),
    }) + match mem_mb {
        Some(m) => "mem:"@ + m + "MB "@,
        None => Seq::empty(),
    };
    if prof.len() == 0 {
        Seq::empty()
    } else {
        " "@ + trim_spec(prof)
    }
}

/// One monitor event as a text line: the time of day (UTC) of its
/// timestamp as `HH:MM:SS.mmm`, the event type in capitals padded to 20,
/// the details, the device, and the profiling figures.
pub open spec fn event_text_spec(e: JsonValue, mem_mb: Option<Seq<char>>) -> Seq<char> {
    let ts = u64_or_zero(e, "timestamp_ms"@);
    let secs = (ts / 1000) % 86400;
    let et = match str_field(e, "event_type"@) {
        Some(t) => t,
        None => "unknown"@,
    };
    let dev = match str_field(e, "device_id"@) {
        Some(d) => d,
        None => Seq::empty(),
    };
    "["@ + zero_pad(dec(secs / 3600), 2) + ":"@ + zero_pad(dec((secs % 3600) / 60), 2) + ":"@ + zero_pad(
        dec(secs % 60),
        2,
    ) + "."@ + zero_pad(dec(ts % 1000), 3) + "] "@ + pad_right(uppercase(et), 20) + " "@ + details_spec(e)
        + " "@ + (if dev.len() == 0 {
        Seq::empty()
    } else {
        "dev:"@ + dev
    }) + profiling_spec(e, mem_mb)
}

fn append_detail(s: &mut String, e: &JsonValue, key: &str, label: &str, width: usize)
    ensures
        final(s)@ == old(s)@ + detail(*e, key@, label@, width as nat),
{
    match e.get_u64(key) {
        Some(v) => {
            s.append(label);
            let mut t = String::new();
            append_dec(&mut t, v);
            append_pad_right(s, t.as_str(), width);
            proof {
                assert(t@ =~= dec(v as nat));
                assert(final(s)@ =~= old(s)@ + detail(*e, key@, label@, width as nat));
            }
        },
        None => {
            proof {
                assert(old(s)@ + detail(*e, key@, label@, width as nat) =~= old(s)@);
            }
        },
    }
}

fn time_prefix(ts: u64) -> (r: String)
    ensures
        r@ == "["@ + zero_pad(dec(((ts / 1000) % 86400) as nat / 3600), 2) + ":"@ + zero_pad(
            dec((((ts / 1000) % 86400) as nat % 3600) / 60),
            2,
        ) + ":"@ + zero_pad(dec(((ts / 1000) % 86400) as nat % 60), 2) + "."@ + zero_pad(dec(ts as nat % 1000), 3)
            + "] "@,
{
    let secs = (ts / 1000) % 86400;
    let mut s = String::from_str("[");
    append_dec_zero_pad(&mut s, secs / 3600, 2);
    s.append(":");
    append_dec_zero_pad(&mut s, (secs % 3600) / 60, 2);
    s.append(":");
    append_dec_zero_pad(&mut s, secs % 60, 2);
    s.append(".");
    append_dec_zero_pad(&mut s, ts % 1000, 3);
    s.append("] ");
    s
}

fn details_text(e: &JsonValue) -> (r: String)
    ensures
        r@ == details_spec(*e),
{
    let mut details = String::new();
    append_detail(&mut details, e, "note", "note:", 4);
    append_detail(&mut details, e, "velocity", "vel:", 4);
    append_detail(&mut details, e, "cc", "cc:", 4);
    append_detail(&mut details, e, "value", "val:", 4);
    append_detail(&mut details, e, "button", "btn:", 4);
    append_detail(&mut details, e, "axis", "axis:", 4);
    if let Some(ch) = e.get_u64("channel") {
        if ch > 0 {
            details.append("ch:");
            let mut t = String::new();
            append_dec(&mut t, ch);
            append_pad_right(&mut details, t.as_str(), 3);
            proof {
                assert(t@ =~= dec(ch as nat));
            }
        }
    }
    proof {
        assert(details@ =~= details_spec(*e));
    }
    details
}

fn profiling_text(e: &JsonValue, mem_mb: Option<&str>) -> (r: String)
    ensures
        r@ == profiling_spec(*e, osv(mem_mb)),
{
    let mut prof = String::new();
    if let Some(p) = e.get_u64("processing_us") {
        prof.append("proc:");
        append_dec(&mut prof, p);
        prof.append("us ");
    }
    if let Some(m) = mem_mb {
        prof.append("mem:");
        prof.append(m);
        prof.append("MB ");
    }
    proof {
        assert(prof@ =~= (match u64_field(*e, "processing_us"@) {
            Some(p) => "proc:"@ + dec(p as nat) + "us "@,
            None => Seq::<char>::empty(),
        }) + match osv(mem_mb) {
            Some(m) => "mem:"@ + m + "MB "@,
            None => Seq::<char>::empty(),
        });
    }
    if prof.unicode_len() > 0 {
        let mut out = String::from_str(" ");
        out.append(trim(prof.as_str()));
        out
    } else {
        String::new()
    }
}

/// Format a monitor event as human-readable text. `mem_mb` is the memory
/// figure, given exactly when the event carries `memory_bytes`.
pub fn format_event_text(e: &JsonValue, mem_mb: Option<&str>) -> (r: String)
    ensures
        r@ == event_text_spec(*e, osv(mem_mb)),
{
    let ts = match e.get_u64("timestamp_ms") {
        Some(t) => t,
        None => 0,
    };
    let et = match e.get_str("event_type") {
        Some(t) => t,
        None => "unknown",
    };
    let dev = match e.get_str("device_id") {
        Some(d) => d,
        None => "",
    };
    let mut s = time_prefix(ts);
    let upper = to_uppercase(et);
    append_pad_right(&mut s, upper.as_str(), 20);
    s.append(" ");
    let details = details_text(e);
    s.append(details.as_str());
    s.append(" ");
    if dev.unicode_len() > 0 {
        s.append("dev:");
        s.append(dev);
    }
    let prof = profiling_text(e, mem_mb);
    s.append(prof.as_str());
    proof {
        reveal_strlit("");
        assert(s@ =~= event_text_spec(*e, osv(mem_mb)));
    }
    s
}

} // verus!
