//! `conductor-state`: unwrapping the daemon's tool-execution envelope down
//! to the JSON text of the control-state snapshot, and the one-line
//! rendering of each snapshot entry.
use vstd::prelude::*;
use crate::json::{JsonValue, json_text_value, parse_json_text, spec_get, str_field, u64_field, i64_field, bool_field, opt_array, opt_str};
use crate::text::{
    str_eq, str_le, lex_le, lemma_lex_le_total, lemma_lex_le_trans, lemma_lex_le_antisym, append_dec, dec, dec_int,
    append_dec_i64, pad_left, pad_right, append_pad_left, append_pad_right,
};

verus! {

/// The first `text` string among the items of a `content` list.
pub open spec fn first_text_in(items: Seq<JsonValue>) -> Option<Seq<char>>
    decreases items.len(),
{
    if items.len() == 0 {
        None
    } else {
        match str_field(items[0], "text"@) {
            Some(t) => Some(t),
            None => first_text_in(items.drop_first()),
        }
    }
}

/// `data.content[..].text`: the first text item of a tool-call result.
pub open spec fn first_text_spec(data: JsonValue) -> Option<Seq<char>> {
    match opt_array(spec_get(data, "content"@)) {
        Some(items) => first_text_in(items),
        None => None,
    }
}

/// The first text item of a tool-call result.
pub fn first_text(data: &JsonValue) -> (r: Option<&str>)
    ensures
        match r {
            Some(t) => first_text_spec(*data) == Some(t@),
            None => first_text_spec(*data) is None,
        },
{
    let items = match data.get("content") {
        Some(c) => match c.as_array() {
            Some(a) => a,
            None => return None,
        },
        None => return None,
    };
    let n = items.len();
    let mut i: usize = 0;
    proof {
        assert(items@.skip(0) =~= items@);
    }
    while i < n
        invariant
            n == items@.len(),
            i <= n,
            first_text_spec(*data) == first_text_in(items@),
            first_text_in(items@.skip(i as int)) == first_text_in(items@),
        decreases n - i,
    {
        proof {
            assert(items@.skip(i as int)[0] == items@[i as int]);
            assert(items@.skip(i as int).drop_first() =~= items@.skip(i + 1));
        }
        if let Some(t) = items[i].get_str("text") {
            return Some(t);
        }
        i = i + 1;
    }
    proof {
        assert(items@.skip(n as int) =~= Seq::<JsonValue>::empty());
    }
    None
}

/// Why the snapshot text could not be had.
pub enum ToolPayloadError {
    /// The tool or the daemon reported this error.
    Message(String),
    /// The tool-call result holds no text item. `nested` tells whether the
    /// result sat inside an execution-result envelope (under `result`).
    MissingText { nested: bool },
}

pub enum ToolPayloadErrorView {
    Message(Seq<char>),
    MissingText(bool),
}

pub open spec fn tool_result_spec(result: JsonValue, nested: bool) -> Result<Seq<char>, ToolPayloadErrorView> {
    if bool_field(result, "isError"@) == Some(true) {
        Err(
            ToolPayloadErrorView::Message(
                "Tool reported error: "@ + match first_text_spec(result) {
                    Some(t) => t,
                    None => "(no error message)"@,
                },
            ),
        )
    } else {
        match first_text_spec(result) {
            Some(t) => Ok(t),
            None => Err(ToolPayloadErrorView::MissingText(nested)),
        }
    }
}

/// The snapshot text of an `ExecuteMcpTool` reply: a `Success` or `Logged`
/// envelope is looked through to its `result`, an `Error` or `RateLimited`
/// envelope becomes its message, any other envelope is refused, and data
/// without an envelope is read as a bare tool-call result.
pub open spec fn tool_text_spec(data: JsonValue) -> Result<Seq<char>, ToolPayloadErrorView> {
    match str_field(data, "type"@) {
        Some(t) => if t == "Success"@ || t == "Logged"@ {
            match spec_get(data, "result"@) {
                Some(result) => tool_result_spec(result, true),
                None => Err(
                    ToolPayloadErrorView::Message(
                        "ExecutionResult::{Success,Logged} missing 'result' field"@,
                    ),
                ),
            }
        } else if t == "Error"@ {
            Err(
                ToolPayloadErrorView::Message(
                    "Tool reported error: "@ + match str_field(data, "message"@) {
                        Some(m) => m,
                        None => "(no message)"@,
                    },
                ),
            )
        } else if t == "RateLimited"@ {
            Err(
                ToolPayloadErrorView::Message(
                    "Rate limited — retry in "@ + dec(
                        match u64_field(data, "retry_after_secs"@) {
                            Some(r) => r as nat,
                            None => 0,
                        },
                    ) + "s"@,
                ),
            )
        } else {
            Err(ToolPayloadErrorView::Message("Unexpected ExecutionResult variant for ReadOnly tool: "@ + t))
        },
        None => tool_result_spec(data, false),
    }
}

pub open spec fn tool_text_view(r: Result<String, ToolPayloadError>) -> Result<Seq<char>, ToolPayloadErrorView> {
    match r {
        Ok(t) => Ok(t@),
        Err(ToolPayloadError::Message(m)) => Err(ToolPayloadErrorView::Message(m@)),
        Err(ToolPayloadError::MissingText { nested }) => Err(ToolPayloadErrorView::MissingText(nested)),
    }
}

fn from_tool_call_result(result: &JsonValue, nested: bool) -> (r: Result<String, ToolPayloadError>)
    ensures
        tool_text_view(r) == tool_result_spec(*result, nested),
{
    let is_error = match result.get_bool("isError") {
        Some(b) => b,
        None => false,
    };
    if is_error {
        let mut m = String::from_str("Tool reported error: ");
        match first_text(result) {
            Some(t) => m.append(t),
            None => m.append("(no error message)"),
        }
        return Err(ToolPayloadError::Message(m));
    }
    match first_text(result) {
        Some(t) => Ok(String::from_str(t)),
        None => Err(ToolPayloadError::MissingText { nested }),
    }
}

/// Pull the snapshot's JSON text out of the daemon's execution-result
/// envelope (the caller parses it).
pub fn extract_tool_text(data: &JsonValue) -> (r: Result<String, ToolPayloadError>)
    ensures
        tool_text_view(r) == tool_text_spec(*data),
{
    match data.get_str("type") {
        Some(t) => {
            if str_eq(t, "Success") || str_eq(t, "Logged") {
                match data.get("result") {
                    Some(result) => from_tool_call_result(result, true),
                    None => Err(
                        ToolPayloadError::Message(
                            String::from_str("ExecutionResult::{Success,Logged} missing 'result' field"),
                        ),
                    ),
                }
            } else if str_eq(t, "Error") {
                let mut m = String::from_str("Tool reported error: ");
                match data.get_str("message") {
                    Some(msg) => m.append(msg),
                    None => m.append("(no message)"),
                }
                Err(ToolPayloadError::Message(m))
            } else if str_eq(t, "RateLimited") {
                let retry = match data.get_u64("retry_after_secs") {
                    Some(r) => r,
                    None => 0,
                };
                let mut m = String::from_str("Rate limited — retry in ");
                append_dec(&mut m, retry);
                m.append("s");
                Err(ToolPayloadError::Message(m))
            } else {
                let mut m = String::from_str("Unexpected ExecutionResult variant for ReadOnly tool: ");
                m.append(t);
                Err(ToolPayloadError::Message(m))
            }
        },
        None => from_tool_call_result(data, false),
    }
}

// ───────────────────────────── entries ─────────────────────────────

pub open spec fn i64_or(e: JsonValue, key: Seq<char>, d: i64) -> i64 {
    match i64_field(e, key) {
        Some(v) => v,
        None => d,
    }
}

/// The channel of an entry as shown: 1-based, `?` when unknown (negative).
pub open spec fn channel_display(ch: i64) -> Seq<char> {
    if ch < 0 {
        "?"@
    } else {
        dec((ch + 1) as nat)
    }
}

/// One snapshot entry as a line, by kind: program change, control change
/// (number right-aligned to 3), held note (number right-aligned to 3),
/// polyphonic and channel aftertouch, pitch bend, and any other kind padded
/// to 18 columns before its value.
pub open spec fn entry_line_spec(e: JsonValue) -> Seq<char> {
    let kind = match str_field(e, "kind"@) {
        Some(k) => k,
        None => "?"@,
    };
    let ch = "ch"@ + channel_display(i64_or(e, "channel"@, -1i64));
    let value = dec_int(i64_or(e, "value"@, 0i64) as int);
    if kind == "program_change"@ {
        ch + "  PC  "@ + value
    } else if kind == "control_change"@ {
        ch + "  CC  "@ + pad_left(dec_int(i64_or(e, "cc"@, -1i64) as int), 3) + " = "@ + value
    } else if kind == "note_held"@ {
        ch + "  note "@ + pad_left(dec_int(i64_or(e, "note"@, -1i64) as int), 3) + "  (velocity "@ + value
            + ")"@
    } else if kind == "poly_aftertouch"@ {
        ch + "  poly-at note "@ + dec_int(i64_or(e, "note"@, -1i64) as int) + "  = "@ + value
    } else if kind == "channel_aftertouch"@ {
        ch + "  channel-at  = "@ + value
    } else if kind == "pitch_bend"@ {
        ch + "  pitch-bend  = "@ + value
    } else {
        ch + "  "@ + pad_right(kind, 18) + " "@ + value
    }
}

fn i64_text(v: i64) -> (r: String)
    ensures
        r@ == dec_int(v as int),
{
    let mut s = String::new();
    append_dec_i64(&mut s, v);
    proof {
        assert(s@ =~= dec_int(v as int));
    }
    s
}

/// Render one `{kind, device, channel, value, [cc|note]}` entry as a single
/// line. (A channel of `i64::MAX` cannot be shown 1-based.)
pub fn format_entry(e: &JsonValue) -> (r: String)
    requires
        i64_field(*e, "channel"@) != Some(i64::MAX),
    ensures
        r@ == entry_line_spec(*e),
{
    let kind = match e.get_str("kind") {
        Some(k) => k,
        None => "?",
    };
    let channel = match e.get_i64("channel") {
        Some(c) => c,
        None => -1,
    };
    let value = match e.get_i64("value") {
        Some(v) => v,
        None => 0,
    };
    let mut s = String::from_str("ch");
    if channel < 0 {
        s.append("?");
    } else {
        append_dec(&mut s, (channel + 1) as u64);
    }
    let value_text = i64_text(value);
    if str_eq(kind, "program_change") {
        s.append("  PC  ");
        s.append(value_text.as_str());
    } else if str_eq(kind, "control_change") {
        let cc = match e.get_i64("cc") {
            Some(c) => c,
            None => -1,
        };
        s.append("  CC  ");
        let t = i64_text(cc);
        append_pad_left(&mut s, t.as_str(), 3);
        s.append(" = ");
        s.append(value_text.as_str());
    } else if str_eq(kind, "note_held") {
        let note = match e.get_i64("note") {
            Some(n) => n,
            None => -1,
        };
        s.append("  note ");
        let t = i64_text(note);
        append_pad_left(&mut s, t.as_str(), 3);
        s.append("  (velocity ");
        s.append(value_text.as_str());
        s.append(")");
    } else if str_eq(kind, "poly_aftertouch") {
        let note = match e.get_i64("note") {
            Some(n) => n,
            None => -1,
        };
        s.append("  poly-at note ");
        let t = i64_text(note);
        s.append(t.as_str());
        s.append("  = ");
        s.append(value_text.as_str());
    } else if str_eq(kind, "channel_aftertouch") {
        s.append("  channel-at  = ");
        s.append(value_text.as_str());
    } else if str_eq(kind, "pitch_bend") {
        s.append("  pitch-bend  = ");
        s.append(value_text.as_str());
    } else {
        s.append("  ");
        append_pad_right(&mut s, kind, 18);
        s.append(" ");
        s.append(value_text.as_str());
    }
    proof {
        assert(s@ =~= entry_line_spec(*e));
    }
    s
}

/// The snapshot read from the tool's payload text, or the failure naming
/// the text that is not JSON.
pub fn parse_tool_payload(text: &str) -> (r: Result<JsonValue, String>)
    ensures
        match r {
            Ok(v) => json_text_value(text@) == Ok::<JsonValue, Seq<char>>(v),
            Err(m) => json_text_value(text@) is Err && m@ == "Failed to parse tool payload as JSON: "@ + text@,
        },
{
    match parse_json_text(text) {
        Ok(v) => Ok(v),
        Err(_) => {
            let mut m = String::from_str("Failed to parse tool payload as JSON: ");
            m.append(text);
            Err(m)
        },
    }
}

/// The heading of the dump: one device or all.
pub fn render_title(device: Option<&str>) -> (r: String)
    ensures
        r@ == match device {
            Some(d) => "Control state — device: "@ + d@,
            None => "Control state — all devices"@,
        },
{
    match device {
        Some(d) => {
            let mut s = String::from_str("Control state — device: ");
            s.append(d);
            s
        },
        None => String::from_str("Control state — all devices"),
    }
}

/// What an empty store is reported as.
pub fn empty_store_message(device: Option<&str>) -> (r: String)
    ensures
        r@ == match device {
            Some(d) => "(no entries for device '"@ + d@
                + "' — check the alias, or re-stomp / re-press to observe state)"@,
            None => "(store is empty — re-stomp / re-press to observe state)"@,
        },
{
    match device {
        Some(d) => {
            let mut s = String::from_str("(no entries for device '");
            s.append(d);
            s.append("' — check the alias, or re-stomp / re-press to observe state)");
            s
        },
        None => String::from_str("(store is empty — re-stomp / re-press to observe state)"),
    }
}

/// The closing count: `"<n> entry"` or `"<n> entries"`.
pub fn entry_count_text(n: usize) -> (r: String)
    ensures
        r@ == dec(n as nat) + if n == 1 {
            " entry"@
        } else {
            " entries"@
        },
{
    let mut s = String::new();
    append_dec(&mut s, n as u64);
    if n == 1 {
        s.append(" entry");
    } else {
        s.append(" entries");
    }
    s
}

/// The daemon error of a failed `conductor-state` request: its code,
/// message and details (rendered by the caller), or a stand-in when the
/// reply carries no error.
pub fn daemon_error_text(code: u16, message: &str, details: Option<&str>) -> (r: String)
    ensures
        r@ == "Daemon error ["@ + dec(code as nat) + "]: "@ + message@ + match details {
            Some(d) => " — "@ + d@,
            None => Seq::<char>::empty(),
        },
{
    let mut s = String::from_str("Daemon error [");
    append_dec(&mut s, code as u64);
    s.append("]: ");
    s.append(message);
    if let Some(d) = details {
        s.append(" — ");
        s.append(d);
    }
    proof {
        assert(s@ =~= "Daemon error ["@ + dec(code as nat) + "]: "@ + message@ + match details {
            Some(d) => " — "@ + d@,
            None => Seq::<char>::empty(),
        });
    }
    s
}


// ───────────────────────────── grouping by device ─────────────────────────────

/// The device an entry belongs to (`?` when it names none).
pub open spec fn device_of(e: JsonValue) -> Seq<char> {
    match str_field(e, "device"@) {
        Some(d) => d,
        None => "?"@,
    }
}

/// `a < b` in the order of `str`.
pub open spec fn lex_lt(a: Seq<char>, b: Seq<char>) -> bool {
    lex_le(a, b) && a != b
}

/// The positions, in order, of those of the first `n` entries that belong
/// to `device`.
pub open spec fn entries_of(es: Seq<JsonValue>, device: Seq<char>, n: nat) -> Seq<int>
    decreases n,
{
    if n == 0 {
        Seq::empty()
    } else {
        let prev = entries_of(es, device, (n - 1) as nat);
        if device_of(es[n - 1]) == device {
            prev.push(n - 1)
        } else {
            prev
        }
    }
}

/// The entries of one device: its name and the positions of its entries.
pub struct DeviceGroup {
    pub device: String,
    pub entries: Vec<usize>,
}

/// The groups come in strictly increasing order of device name.
pub open spec fn groups_sorted(gs: Seq<DeviceGroup>) -> bool {
    forall|i: int, j: int| 0 <= i < j < gs.len() ==> lex_lt(#[trigger] gs[i].device@, #[trigger] gs[j].device@)
}

/// One group per device that occurs: each holds exactly the positions of
/// that device's entries, in order, and every entry's device has a group.
pub open spec fn groups_exact(gs: Seq<DeviceGroup>, es: Seq<JsonValue>) -> bool {
    &&& forall|g: int|
        0 <= g < gs.len() ==> (#[trigger] gs[g]).entries@.map_values(|k: usize| k as int) == entries_of(
            es,
            gs[g].device@,
            es.len(),
        )
    &&& forall|g: int| 0 <= g < gs.len() ==> entries_of(es, (#[trigger] gs[g]).device@, es.len()).len() > 0
    &&& forall|k: int|
        0 <= k < es.len() ==> exists|g: int|
            0 <= g < gs.len() && #[trigger] gs[g].device@ == #[trigger] device_of(es[k])
}

proof fn lemma_entries_of_nonempty(es: Seq<JsonValue>, d: Seq<char>, n: nat, k: int)
    requires
        0 <= k < n <= es.len(),
        device_of(es[k]) == d,
    ensures
        entries_of(es, d, n).len() > 0,
    decreases n,
{
    if k < n - 1 {
        lemma_entries_of_nonempty(es, d, (n - 1) as nat, k);
    }
}

proof fn lemma_entries_of_contains(es: Seq<JsonValue>, d: Seq<char>, n: nat, k: int)
    requires
        n <= es.len(),
    ensures
        entries_of(es, d, n).contains(k) <==> (0 <= k < n && device_of(es[k]) == d),
    decreases n,
{
    if n > 0 {
        lemma_entries_of_contains(es, d, (n - 1) as nat, k);
        let prev = entries_of(es, d, (n - 1) as nat);
        if device_of(es[n - 1]) == d {
            let cur = prev.push(n - 1);
            assert(cur[prev.len() as int] == n - 1);
            if cur.contains(k) {
                let j = choose|j: int| 0 <= j < cur.len() && #[trigger] cur[j] == k;
                if j < prev.len() {
                    assert(prev[j] == k);
                }
            }
            if prev.contains(k) {
                let j = choose|j: int| 0 <= j < prev.len() && #[trigger] prev[j] == k;
                assert(cur[j] == k);
            }
        }
    }
}

/// Grouping shows every entry exactly once: in one group, and in no other.
pub proof fn grouping_shows_each_entry_once(gs: Seq<DeviceGroup>, es: Seq<JsonValue>, k: int)
    requires
        groups_sorted(gs),
        groups_exact(gs, es),
        0 <= k < es.len(),
    ensures
        exists|g: int| 0 <= g < gs.len() && (#[trigger] gs[g]).entries@.map_values(|i: usize| i as int).contains(k),
        forall|g1: int, g2: int|
            0 <= g1 < gs.len() && 0 <= g2 < gs.len() && (#[trigger] gs[g1]).entries@.map_values(
                |i: usize| i as int,
            ).contains(k) && (#[trigger] gs[g2]).entries@.map_values(|i: usize| i as int).contains(k) ==> g1
                == g2,
{
    assert(device_of(es[k]) == device_of(es[k]));
    let g = choose|g: int| 0 <= g < gs.len() && #[trigger] gs[g].device@ == device_of(es[k]);
    lemma_entries_of_contains(es, gs[g].device@, es.len(), k);
    assert(gs[g].entries@.map_values(|i: usize| i as int) == entries_of(es, gs[g].device@, es.len()));
    assert forall|g1: int, g2: int|
        0 <= g1 < gs.len() && 0 <= g2 < gs.len() && (#[trigger] gs[g1]).entries@.map_values(
            |i: usize| i as int,
        ).contains(k) && (#[trigger] gs[g2]).entries@.map_values(|i: usize| i as int).contains(k) implies g1
        == g2 by {
        assert(gs[g1].entries@.map_values(|i: usize| i as int) == entries_of(es, gs[g1].device@, es.len()));
        assert(gs[g2].entries@.map_values(|i: usize| i as int) == entries_of(es, gs[g2].device@, es.len()));
        lemma_entries_of_contains(es, gs[g1].device@, es.len(), k);
        lemma_entries_of_contains(es, gs[g2].device@, es.len(), k);
        if g1 < g2 {
            assert(lex_lt(gs[g1].device@, gs[g2].device@));
        } else if g2 < g1 {
            assert(lex_lt(gs[g2].device@, gs[g1].device@));
        }
    }
}

fn device_name(e: &JsonValue) -> (r: &str)
    ensures
        r@ == device_of(*e),
{
    match e.get_str("device") {
        Some(d) => d,
        None => "?",
    }
}

/// Names in strictly increasing order.
pub open spec fn strictly_sorted(ds: Seq<String>) -> bool {
    forall|a: int, b: int| 0 <= a < b < ds.len() ==> lex_lt(#[trigger] ds[a]@, #[trigger] ds[b]@)
}

/// `x` is one of the names.
pub open spec fn has_name(ds: Seq<String>, x: Seq<char>) -> bool {
    exists|g: int| 0 <= g < ds.len() && ds[g]@ == x
}

/// Add `d` to a strictly sorted list of names, unless it is there already.
fn insert_device(ds: &mut Vec<String>, d: &str)
    requires
        strictly_sorted(old(ds)@),
    ensures
        strictly_sorted(final(ds)@),
        forall|x: Seq<char>| #[trigger] has_name(final(ds)@, x) <==> (has_name(old(ds)@, x) || x == d@),
{
    let ghost before = ds@;
    let mut p: usize = 0;
    while p < ds.len() && !str_le(d, ds[p].as_str())
        invariant
            p <= ds@.len(),
            ds@ == before,
            forall|k: int| 0 <= k < p ==> !lex_le(d@, #[trigger] ds@[k]@),
        decreases ds@.len() - p,
    {
        p = p + 1;
    }
    if p < ds.len() && str_eq(ds[p].as_str(), d) {
        proof {
            assert forall|x: Seq<char>| #[trigger] has_name(ds@, x) <==> (has_name(before, x) || x == d@) by {
                if x == d@ {
                    assert(ds@[p as int]@ == x);
                }
            }
        }
        return;
    }
    proof {
        lemma_lex_le_total(d@, d@);
        assert forall|k: int| 0 <= k < p implies lex_lt(#[trigger] before[k]@, d@) by {
            lemma_lex_le_total(before[k]@, d@);
        }
        if p < before.len() {
            assert(lex_lt(d@, before[p as int]@));
        }
        assert forall|j: int| p <= j < before.len() implies lex_lt(d@, #[trigger] before[j]@) by {
            if j > p {
                assert(lex_lt(before[p as int]@, before[j]@));
                lemma_lex_le_trans(d@, before[p as int]@, before[j]@);
                if d@ == before[j]@ {
                    lemma_lex_le_antisym(d@, before[p as int]@);
                }
            }
        }
    }
    ds.insert(p, String::from_str(d));
    proof {
        assert(ds@ == before.insert(p as int, ds@[p as int]));
        assert forall|a: int, b: int| 0 <= a < b < ds@.len() implies lex_lt(
            #[trigger] ds@[a]@,
            #[trigger] ds@[b]@,
        ) by {
            if b < p {
                assert(ds@[a] == before[a] && ds@[b] == before[b]);
            } else if a < p && b == p {
                assert(ds@[a] == before[a]);
            } else if a < p && b > p {
                assert(ds@[a] == before[a] && ds@[b] == before[b - 1]);
                assert(lex_lt(d@, before[b - 1]@));
                lemma_lex_le_trans(before[a]@, d@, before[b - 1]@);
                if before[a]@ == before[b - 1]@ {
                    lemma_lex_le_antisym(before[a]@, d@);
                }
            } else if a == p && b > p {
                assert(ds@[b] == before[b - 1]);
                assert(lex_lt(d@, before[b - 1]@));
            } else {
                assert(ds@[a] == before[a - 1] && ds@[b] == before[b - 1]);
            }
        }
        assert forall|x: Seq<char>| #[trigger] has_name(ds@, x) <==> (has_name(before, x) || x == d@) by {
            if x == d@ {
                assert(ds@[p as int]@ == x);
            }
            if has_name(before, x) {
                let g = choose|g: int| 0 <= g < before.len() && before[g]@ == x;
                if g < p {
                    assert(ds@[g] == before[g]);
                } else {
                    assert(ds@[g + 1] == before[g]);
                }
            }
            if has_name(ds@, x) {
                let g = choose|g: int| 0 <= g < ds@.len() && ds@[g]@ == x;
                if g < p {
                    assert(ds@[g] == before[g]);
                } else if g > p {
                    assert(ds@[g] == before[g - 1]);
                }
            }
        }
    }
}

/// The distinct devices of the entries, in increasing order.
fn sorted_devices(entries: &Vec<JsonValue>) -> (r: Vec<String>)
    ensures
        strictly_sorted(r@),
        forall|k: int| 0 <= k < entries@.len() ==> has_name(r@, #[trigger] device_of(entries@[k])),
        forall|x: Seq<char>|
            #[trigger] has_name(r@, x) ==> exists|k: int| 0 <= k < entries@.len() && device_of(entries@[k]) == x,
{
    let mut ds: Vec<String> = Vec::new();
    let n = entries.len();
    let mut i: usize = 0;
    while i < n
        invariant
            n == entries@.len(),
            i <= n,
            strictly_sorted(ds@),
            forall|k: int| 0 <= k < i ==> has_name(ds@, #[trigger] device_of(entries@[k])),
            forall|x: Seq<char>|
                #[trigger] has_name(ds@, x) ==> exists|k: int| 0 <= k < i && device_of(entries@[k]) == x,
        decreases n - i,
    {
        let d = device_name(&entries[i]);
        let ghost before = ds@;
        insert_device(&mut ds, d);
        proof {
            assert forall|k: int| 0 <= k < i + 1 implies has_name(ds@, #[trigger] device_of(entries@[k])) by {
                if k < i {
                    assert(has_name(before, device_of(entries@[k])));
                }
            }
            assert forall|x: Seq<char>| #[trigger] has_name(ds@, x) implies exists|k: int|
                0 <= k < i + 1 && device_of(entries@[k]) == x by {
                if x != d@ {
                    assert(has_name(before, x));
                    let k = choose|k: int| 0 <= k < i && device_of(entries@[k]) == x;
                } else {
                    assert(device_of(entries@[i as int]) == x);
                }
            }
        }
        i = i + 1;
    }
    ds
}

/// The positions of the entries that belong to `device`, in order.
fn entries_for(entries: &Vec<JsonValue>, device: &str) -> (r: Vec<usize>)
    ensures
        r@.map_values(|k: usize| k as int) == entries_of(entries@, device@, entries@.len()),
{
    let mut out: Vec<usize> = Vec::new();
    let n = entries.len();
    let mut i: usize = 0;
    while i < n
        invariant
            n == entries@.len(),
            i <= n,
            out@.map_values(|k: usize| k as int) == entries_of(entries@, device@, i as nat),
        decreases n - i,
    {
        let ghost before = out@;
        if str_eq(device_name(&entries[i]), device) {
            out.push(i);
            proof {
                assert(out@.map_values(|k: usize| k as int) =~= before.map_values(|k: usize| k as int).push(
                    i as int,
                ));
            }
        }
        i = i + 1;
    }
    out
}

/// Group the snapshot's entries by device, devices in name order and each
/// device's entries in their original order, so the dump stays readable
/// when several devices are active.
pub fn group_by_device(entries: &Vec<JsonValue>) -> (r: Vec<DeviceGroup>)
    ensures
        groups_sorted(r@),
        groups_exact(r@, entries@),
{
    let ds = sorted_devices(entries);
    let mut out: Vec<DeviceGroup> = Vec::new();
    let m = ds.len();
    let mut g: usize = 0;
    while g < m
        invariant
            m == ds@.len(),
            g <= m,
            out@.len() == g,
            forall|a: int| 0 <= a < g ==> (#[trigger] out@[a]).device@ == ds@[a]@,
            forall|a: int|
                0 <= a < g ==> (#[trigger] out@[a]).entries@.map_values(|k: usize| k as int) == entries_of(
                    entries@,
                    ds@[a]@,
                    entries@.len(),
                ),
        decreases m - g,
    {
        let members = entries_for(entries, ds[g].as_str());
        out.push(DeviceGroup { device: String::from_str(ds[g].as_str()), entries: members });
        g = g + 1;
    }
    proof {
        assert forall|i: int, j: int| 0 <= i < j < out@.len() implies lex_lt(
            #[trigger] out@[i].device@,
            #[trigger] out@[j].device@,
        ) by {
            assert(lex_lt(ds@[i]@, ds@[j]@));
        }
        assert forall|a: int| 0 <= a < out@.len() implies entries_of(
            entries@,
            (#[trigger] out@[a]).device@,
            entries@.len(),
        ).len() > 0 by {
            assert(ds@[a]@ == out@[a].device@);
            assert(has_name(ds@, ds@[a]@));
            let k = choose|k: int| 0 <= k < entries@.len() && device_of(entries@[k]) == ds@[a]@;
            lemma_entries_of_nonempty(entries@, ds@[a]@, entries@.len(), k);
        }
        assert forall|k: int| 0 <= k < entries@.len() implies exists|a: int|
            0 <= a < out@.len() && #[trigger] out@[a].device@ == #[trigger] device_of(entries@[k]) by {
            assert(has_name(ds@, device_of(entries@[k])));
            let a = choose|a: int| 0 <= a < ds@.len() && ds@[a]@ == device_of(entries@[k]);
            assert(out@[a].device@ == ds@[a]@);
        }
    }
    out
}

} // verus!
