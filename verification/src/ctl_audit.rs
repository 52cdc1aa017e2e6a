//! `conductorctl audit`, `mcp` and the config-IPC commands: the tier names
//! the command line accepts, the follow-mode de-duplication of the audit
//! stream against the backlog, and the text of an audit entry.
use vstd::prelude::*;
use crate::json::{JsonValue, json_text_value, parse_json_text, spec_get, str_field, u64_field, i64_field, bool_field};
use crate::text::{str_eq, starts_with, occurs_at, append_dec, dec, trim, trim_spec};
use crate::service::{join_spec, path_join};
use crate::styled::{Span, Style, span, push_span, line_v};

verus! {

// ───────────────────────────── tiers ─────────────────────────────

/// The risk tiers an MCP client can be registered at.
#[derive(Clone, Copy, Debug, PartialEq, Eq, Structural)]
pub enum AuditRiskTier {
    ReadOnly,
    Stateful,
    ConfigChange,
    HardwareIO,
}

pub open spec fn parse_tier_spec(s: Seq<char>) -> Option<AuditRiskTier> {
    if s == "ReadOnly"@ || s == "read_only"@ {
        Some(AuditRiskTier::ReadOnly)
    } else if s == "Stateful"@ || s == "stateful"@ {
        Some(AuditRiskTier::Stateful)
    } else if s == "ConfigChange"@ || s == "config_change"@ {
        Some(AuditRiskTier::ConfigChange)
    } else if s == "HardwareIO"@ || s == "hardware_io"@ {
        Some(AuditRiskTier::HardwareIO)
    } else {
        None
    }
}

pub open spec fn invalid_tier_msg(s: Seq<char>) -> Seq<char> {
    "invalid tier '"@ + s
        + "' — expected one of: ReadOnly, Stateful, ConfigChange, HardwareIO (snake_case forms also accepted)"@
}

/// Parse an `AuditRiskTier` from a CLI string. Accepts both the PascalCase
/// names (`ReadOnly`, `Stateful`, `ConfigChange`, `HardwareIO`) and the
/// snake_case wire names (`read_only`, `stateful`, `config_change`,
/// `hardware_io`).
pub fn parse_audit_tier(s: &str) -> (r: Result<AuditRiskTier, String>)
    ensures
        match parse_tier_spec(s@) {
            Some(t) => r == Ok::<AuditRiskTier, String>(t),
            None => r matches Err(m) && m@ == invalid_tier_msg(s@),
        },
{
    if str_eq(s, "ReadOnly") || str_eq(s, "read_only") {
        Ok(AuditRiskTier::ReadOnly)
    } else if str_eq(s, "Stateful") || str_eq(s, "stateful") {
        Ok(AuditRiskTier::Stateful)
    } else if str_eq(s, "ConfigChange") || str_eq(s, "config_change") {
        Ok(AuditRiskTier::ConfigChange)
    } else if str_eq(s, "HardwareIO") || str_eq(s, "hardware_io") {
        Ok(AuditRiskTier::HardwareIO)
    } else {
        let mut m = String::from_str("invalid tier '");
        m.append(s);
        m.append(
            "' — expected one of: ReadOnly, Stateful, ConfigChange, HardwareIO (snake_case forms also accepted)",
        );
        Err(m)
    }
}

pub open spec fn tier_name_spec(t: AuditRiskTier) -> Seq<char> {
    match t {
        AuditRiskTier::ReadOnly => "read_only"@,
        AuditRiskTier::Stateful => "stateful"@,
        AuditRiskTier::ConfigChange => "config_change"@,
        AuditRiskTier::HardwareIO => "hardware_io"@,
    }
}

/// The snake_case wire name of a tier, as `mcp list --json` prints it.
pub fn tier_name(t: AuditRiskTier) -> (r: &'static str)
    ensures
        r@ == tier_name_spec(t),
{
    match t {
        AuditRiskTier::ReadOnly => "read_only",
        AuditRiskTier::Stateful => "stateful",
        AuditRiskTier::ConfigChange => "config_change",
        AuditRiskTier::HardwareIO => "hardware_io",
    }
}

/// Every tier's wire name is accepted back by the command line, naming the
/// same tier, so `mcp list --json` output can be piped into `register`.
pub proof fn tier_names_round_trip(t: AuditRiskTier)
    ensures
        parse_tier_spec(tier_name_spec(t)) == Some(t),
{
    reveal_strlit("ReadOnly");
    reveal_strlit("read_only");
    reveal_strlit("Stateful");
    reveal_strlit("stateful");
    reveal_strlit("ConfigChange");
    reveal_strlit("config_change");
    reveal_strlit("HardwareIO");
    reveal_strlit("hardware_io");
    match t {
        AuditRiskTier::ReadOnly => {},
        AuditRiskTier::Stateful => {
            assert("Stateful"@[0] != "ReadOnly"@[0]);
            assert("stateful"@[0] != "read_only"@[0]);
            assert("stateful"@[0] != "ReadOnly"@[0]);
        },
        AuditRiskTier::ConfigChange => {
            assert("config_change"@[0] != "ReadOnly"@[0]);
            assert("config_change"@[0] != "read_only"@[0]);
            assert("config_change"@[0] != "Stateful"@[0]);
            assert("config_change"@[0] != "stateful"@[0]);
        },
        AuditRiskTier::HardwareIO => {
            assert("hardware_io"@[0] != "ReadOnly"@[0]);
            assert("hardware_io"@[0] != "read_only"@[0]);
            assert("hardware_io"@[0] != "Stateful"@[0]);
            assert("hardware_io"@[0] != "stateful"@[0]);
            assert("hardware_io"@[0] != "ConfigChange"@[0]);
            assert("hardware_io"@[0] != "config_change"@[0]);
        },
    }
}

// ───────────────────────────── follow-mode de-duplication ─────────────────────────────

/// The ids of the backlog entries already printed, each held once.
pub struct SeenIds {
    ids: Vec<String>,
}

impl View for SeenIds {
    type V = Set<Seq<char>>;

    closed spec fn view(&self) -> Set<Seq<char>> {
        Set::new(|s: Seq<char>| exists|i: int| 0 <= i < self.ids@.len() && self.ids@[i]@ == s)
    }
}

impl SeenIds {
    /// No id is held twice.
    pub closed spec fn wf(&self) -> bool {
        forall|i: int, j: int| 0 <= i < j < self.ids@.len() ==> self.ids@[i]@ != self.ids@[j]@
    }

    pub fn new() -> (r: SeenIds)
        ensures
            r.wf(),
            r@ == Set::<Seq<char>>::empty(),
    {
        let r = SeenIds { ids: Vec::new() };
        proof {
            assert(r@ =~= Set::<Seq<char>>::empty());
        }
        r
    }

    fn position(&self, id: &str) -> (r: Option<usize>)
        ensures
            match r {
                Some(i) => i < self.ids@.len() && self.ids@[i as int]@ == id@,
                None => forall|k: int| 0 <= k < self.ids@.len() ==> self.ids@[k]@ != id@,
            },
    {
        let mut i: usize = 0;
        while i < self.ids.len()
            invariant
                i <= self.ids@.len(),
                forall|k: int| 0 <= k < i ==> self.ids@[k]@ != id@,
            decreases self.ids@.len() - i,
        {
            if str_eq(self.ids[i].as_str(), id) {
                return Some(i);
            }
            i = i + 1;
        }
        None
    }

    /// Remember an id (`HashSet::insert`).
    pub fn insert(&mut self, id: &str)
        requires
            old(self).wf(),
        ensures
            final(self).wf(),
            final(self)@ == old(self)@.insert(id@),
    {
        match self.position(id) {
            Some(_) => {
                proof {
                    assert(self@ =~= old(self)@.insert(id@));
                }
            },
            None => {
                self.ids.push(String::from_str(id));
                proof {
                    assert(self.ids@.drop_last() == old(self).ids@);
                    assert forall|s: Seq<char>| self@.contains(s) == old(self)@.insert(id@).contains(s) by {
                        if old(self)@.contains(s) {
                            let k = choose|k: int| 0 <= k < old(self).ids@.len() && old(self).ids@[k]@ == s;
                            assert(self.ids@[k] == old(self).ids@[k]);
                        }
                        if self@.contains(s) && s != id@ {
                            let k = choose|k: int| 0 <= k < self.ids@.len() && self.ids@[k]@ == s;
                            assert(k < old(self).ids@.len());
                            assert(self.ids@[k] == old(self).ids@[k]);
                        }
                        if s == id@ {
                            assert(self.ids@[self.ids@.len() - 1]@ == id@);
                        }
                    }
                    assert(self@ =~= old(self)@.insert(id@));
                }
            },
        }
    }

    /// Forget an id, answering whether it was held (`HashSet::remove`).
    pub fn remove(&mut self, id: &str) -> (r: bool)
        requires
            old(self).wf(),
        ensures
            final(self).wf(),
            r == old(self)@.contains(id@),
            final(self)@ == old(self)@.remove(id@),
    {
        match self.position(id) {
            Some(i) => {
                let _ = self.ids.remove(i);
                proof {
                    let o = old(self).ids@;
                    assert(self.ids@ == o.remove(i as int));
                    assert(old(self)@.contains(id@));
                    assert forall|s: Seq<char>| self@.contains(s) == old(self)@.remove(id@).contains(s) by {
                        if self@.contains(s) {
                            let k = choose|k: int| 0 <= k < self.ids@.len() && self.ids@[k]@ == s;
                            if k < i {
                                assert(self.ids@[k] == o[k]);
                                assert(o[k]@ != o[i as int]@);
                            } else {
                                assert(self.ids@[k] == o[k + 1]);
                                assert(o[k + 1]@ != o[i as int]@);
                            }
                        }
                        if old(self)@.remove(id@).contains(s) {
                            let k = choose|k: int| 0 <= k < o.len() && o[k]@ == s;
                            assert(k != i);
                            if k < i {
                                assert(self.ids@[k] == o[k]);
                            } else {
                                assert(self.ids@[k - 1] == o[k]);
                            }
                        }
                    }
                    assert(self@ =~= old(self)@.remove(id@));
                }
                true
            },
            None => {
                proof {
                    assert(!old(self)@.contains(id@));
                    assert(self@ =~= old(self)@.remove(id@));
                }
                false
            },
        }
    }
}

/// What follow mode does with one line of the live audit stream.
pub enum StreamAction {
    /// The daemon dropped events: warn with this text.
    Lagged(String),
    /// Already printed from the backlog: skip it.
    Duplicate,
    /// Print the entry.
    Show,
}

pub open spec fn lag_warning_spec(lagged: u64, last: u32) -> Seq<char> {
    "⚠ audit stream lagged by "@ + dec(lagged as nat)
        + " events — re-run `conductorctl audit tail --last "@ + dec(
        if lagged >= last as u64 {
            lagged as nat
        } else {
            last as nat
        },
    ) + "` to backfill"@
}

/// Decide what to do with one parsed stream line: a `lagged` marker is a
/// warning (suggesting a backfill of at least `--last` entries), an entry
/// whose id the backlog already printed is skipped once, anything else is
/// shown.
/// One parsed stream line's step, from the ids seen `before` to those seen
/// `after`: a `lagged` marker is a warning and changes nothing; an entry
/// whose id the backlog printed is a duplicate and its id is forgotten;
/// anything else is shown.
pub open spec fn stream_step_spec(
    value: JsonValue,
    before: Set<Seq<char>>,
    after: Set<Seq<char>>,
    last: u32,
    r: StreamAction,
) -> bool {
    &&& u64_field(value, "lagged"@) matches Some(n) ==> (r matches StreamAction::Lagged(m) && m@
        == lag_warning_spec(n, last)) && after == before
    &&& u64_field(value, "lagged"@) is None ==> match str_field(value, "id"@) {
        Some(id) => if before.contains(id) {
            r is Duplicate && after == before.remove(id)
        } else {
            r is Show && after == before
        },
        None => r is Show && after == before,
    }
}

pub fn audit_stream_step(value: &JsonValue, seen: &mut SeenIds, last: u32) -> (r: StreamAction)
    requires
        old(seen).wf(),
    ensures
        final(seen).wf(),
        stream_step_spec(*value, old(seen)@, final(seen)@, last, r),
{
    if let Some(lagged) = value.get_u64("lagged") {
        let mut m = String::from_str("⚠ audit stream lagged by ");
        append_dec(&mut m, lagged);
        m.append(" events — re-run `conductorctl audit tail --last ");
        let shown = if lagged >= last as u64 {
            lagged
        } else {
            last as u64
        };
        append_dec(&mut m, shown);
        m.append("` to backfill");
        return StreamAction::Lagged(m);
    }
    if let Some(id) = value.get_str("id") {
        if seen.remove(id) {
            return StreamAction::Duplicate;
        }
        proof {
            assert(seen@ =~= old(seen)@.remove(id@));
            assert(old(seen)@.remove(id@) =~= old(seen)@);
        }
    }
    StreamAction::Show
}

/// What one raw line of the audit stream does: a blank line is skipped; a
/// line that is not JSON fails the follow with the parser's message; a JSON
/// line takes its step (and comes back with its parsed value).
pub fn audit_stream_line(line: &str, seen: &mut SeenIds, last: u32) -> (r: Result<Option<(StreamAction, JsonValue)>, String>)
    requires
        old(seen).wf(),
    ensures
        final(seen).wf(),
        trim_spec(line@).len() == 0 ==> (r matches Ok(None)) && final(seen)@ == old(seen)@,
        trim_spec(line@).len() > 0 ==> match json_text_value(trim_spec(line@)) {
            Err(e) => (r matches Err(m) && m@ == "Malformed audit stream line: "@ + e) && final(seen)@ == old(
                seen,
            )@,
            Ok(v) => (r matches Ok(Some((a, w))) && w == v && stream_step_spec(v, old(seen)@, final(seen)@, last, a)),
        },
{
    let trimmed = trim(line);
    if trimmed.unicode_len() == 0 {
        return Ok(None);
    }
    match parse_json_text(trimmed) {
        Ok(value) => {
            let action = audit_stream_step(&value, seen, last);
            Ok(Some((action, value)))
        },
        Err(e) => {
            let mut m = String::from_str("Malformed audit stream line: ");
            m.append(e.as_str());
            Err(m)
        },
    }
}

/// A backlog entry seen again on the live stream is skipped exactly once:
/// the first time it is a duplicate and is forgotten, so a later line with
/// the same id is shown.
pub proof fn backlog_ids_skip_once(seen: Set<Seq<char>>, id: Seq<char>)
    requires
        seen.contains(id),
    ensures
        !seen.remove(id).contains(id),
        forall|other: Seq<char>| other != id ==> (seen.remove(id).contains(other) == seen.contains(other)),
{
}

/// The note printed when the backlog is empty.
pub fn empty_backlog_message(denied_only: bool) -> (r: String)
    ensures
        r@ == if denied_only {
            "(no denial entries in the audit log yet)"@
        } else {
            "(no audit entries in the audit log yet)"@
        },
{
    if denied_only {
        String::from_str("(no denial entries in the audit log yet)")
    } else {
        String::from_str("(no audit entries in the audit log yet)")
    }
}

// ───────────────────────────── audit entries ─────────────────────────────

/// The UTC date and time `%Y-%m-%d %H:%M:%S` of a Unix time in
/// milliseconds, or none when out of chrono's range.
pub uninterp spec fn utc_datetime_text(millis: i64) -> Option<Seq<char>>;

/// `DateTime::from_timestamp_millis(ms).map(|dt| dt.format("%Y-%m-%d %H:%M:%S").to_string())`.
#[verifier::external_body]
fn utc_datetime(millis: i64) -> (r: Option<String>)
    ensures
        match r {
            Some(s) => utc_datetime_text(millis) == Some(s@),
            None => utc_datetime_text(millis) is None,
        },
{
    chrono::DateTime::from_timestamp_millis(millis).map(|dt| dt.format("%Y-%m-%d %H:%M:%S").to_string())
}

/// The pieces of one human-readable audit line.
pub struct AuditLine {
    /// The entry's time (shown dimmed).
    pub timestamp: String,
    pub event_type: String,
    /// `tool_denied` entries are highlighted.
    pub is_denial: bool,
    pub tool: String,
    /// The verdict given for a denial (shown yellow).
    pub reason: Option<String>,
    /// `[client_id]` or `[uid=N]` (shown cyan).
    pub caller: Option<String>,
}

pub open spec fn or_default(v: Option<Seq<char>>, d: Seq<char>) -> Seq<char> {
    match v {
        Some(s) => s,
        None => d,
    }
}

pub open spec fn created_at(e: JsonValue) -> i64 {
    match i64_field(e, "created_at"@) {
        Some(t) => t,
        None => 0,
    }
}

pub open spec fn caller_spec(e: JsonValue) -> Option<Seq<char>> {
    match spec_get(e, "user_context"@) {
        Some(uc) => match str_field(uc, "client_id"@) {
            Some(c) => Some("["@ + c + "]"@),
            None => match u64_field(uc, "uid"@) {
                Some(u) => Some("[uid="@ + dec(u as nat) + "]"@),
                None => None,
            },
        },
        None => None,
    }
}

pub open spec fn ov(s: Option<String>) -> Option<Seq<char>> {
    match s {
        Some(x) => Some(x@),
        None => None,
    }
}

/// Read one audit entry into the pieces of its text line.
pub fn audit_line(entry: &JsonValue) -> (r: AuditLine)
    ensures
        r.timestamp@ == or_default(utc_datetime_text(created_at(*entry)), crate::text::dec_int(
            created_at(*entry) as int,
        )),
        r.event_type@ == or_default(str_field(*entry, "event_type"@), "unknown"@),
        r.is_denial == (r.event_type@ == "tool_denied"@),
        r.tool@ == or_default(str_field(*entry, "tool_name"@), "-"@),
        ov(r.reason) == str_field(*entry, "error_message"@),
        ov(r.caller) == caller_spec(*entry),
{
    let event_type = match entry.get_str("event_type") {
        Some(s) => String::from_str(s),
        None => String::from_str("unknown"),
    };
    let tool = match entry.get_str("tool_name") {
        Some(s) => String::from_str(s),
        None => String::from_str("-"),
    };
    let created = match entry.get_i64("created_at") {
        Some(t) => t,
        None => 0,
    };
    let timestamp = match utc_datetime(created) {
        Some(s) => s,
        None => {
            let mut s = String::new();
            crate::text::append_dec_i64(&mut s, created);
            s
        },
    };
    let is_denial = str_eq(event_type.as_str(), "tool_denied");
    let reason = match entry.get_str("error_message") {
        Some(s) => Some(String::from_str(s)),
        None => None,
    };
    let caller = match entry.get("user_context") {
        Some(uc) => match uc.get_str("client_id") {
            Some(c) => {
                let mut s = String::from_str("[");
                s.append(c);
                s.append("]");
                Some(s)
            },
            None => match uc.get_u64("uid") {
                Some(u) => {
                    let mut s = String::from_str("[uid=");
                    append_dec(&mut s, u);
                    s.append("]");
                    Some(s)
                },
                None => None,
            },
        },
        None => None,
    };
    AuditLine { timestamp, event_type, is_denial, tool, reason, caller }
}

// ───────────────────────────── MCP registry ─────────────────────────────

/// `--exe-path` must be absolute; the error names the path otherwise.
pub fn require_absolute_exe_path(path: &str) -> (r: Result<(), String>)
    ensures
        r is Ok <==> occurs_at(path@, "/"@, 0),
        r matches Err(m) ==> m@ == "--exe-path must be an absolute path (got: "@ + path@ + ")"@,
{
    if starts_with(path, "/") {
        Ok(())
    } else {
        let mut m = String::from_str("--exe-path must be an absolute path (got: ");
        m.append(path);
        m.append(")");
        Err(m)
    }
}

/// The verb and JSON action of `mcp register`: an exe path already in the
/// registry is updated, a new one created.
pub fn register_outcome_words(was_existing: bool) -> (r: (&'static str, &'static str))
    ensures
        r.0@ == if was_existing {
            "Updated"@
        } else {
            "Registered"@
        },
        r.1@ == if was_existing {
            "updated"@
        } else {
            "created"@
        },
{
    if was_existing {
        ("Updated", "updated")
    } else {
        ("Registered", "created")
    }
}

/// `mcp revoke` tries the canonical path and, when that removed nothing and
/// differs from the literal path, the literal path too.
pub fn revoke_needs_literal_retry(removed_canonical: bool, key: &str, literal: &str) -> (r: bool)
    ensures
        r == (!removed_canonical && key@ != literal@),
{
    !removed_canonical && !str_eq(key, literal)
}

// ───────────────────────────── config commands ─────────────────────────────

/// `migrate-config` without `--routing`: only the routing migration is left.
pub fn migrate_config_requires_routing() -> (r: String)
    ensures
        r@ == "migrate-config now supports only --routing (legacy [[bindings]]/[[connectors]]/[device] have been removed; author [[endpoints]] directly)."@,
{
    String::from_str(
        "migrate-config now supports only --routing (legacy [[bindings]]/[[connectors]]/[device] have been removed; author [[endpoints]] directly).",
    )
}

/// The config file `migrate-config` works on: the one given, else
/// `<config dir>/conductor/config.toml` (where the daemon and GUI look).
pub fn resolve_migrate_config_path(config_path: Option<&str>, config_dir: Option<&str>) -> (r: Result<
    String,
    String,
>)
    ensures
        match config_path {
            Some(p) => r matches Ok(x) && x@ == p@,
            None => match config_dir {
                Some(d) => r matches Ok(x) && x@ == join_spec(join_spec(d@, "conductor"@), "config.toml"@),
                None => r matches Err(m) && m@ == "Could not determine config directory"@,
            },
        },
{
    match config_path {
        Some(p) => Ok(String::from_str(p)),
        None => match config_dir {
            Some(d) => {
                let c = path_join(d, "conductor");
                Ok(path_join(c.as_str(), "config.toml"))
            },
            None => Err(String::from_str("Could not determine config directory")),
        },
    }
}

/// `config save` takes its config from stdin; a path is refused with a
/// pointer to `config import`.
pub fn save_path_refusal(path: &str) -> (r: String)
    ensures
        r@ == "`config save` commits a config body read from stdin; it does not take a path. To load a config FILE (under the daemon's path allowlist), use: `conductorctl config import "@
            + path@ + "`"@,
{
    let mut m = String::from_str(
        "`config save` commits a config body read from stdin; it does not take a path. To load a config FILE (under the daemon's path allowlist), use: `conductorctl config import ",
    );
    m.append(path);
    m.append("`");
    m
}


// ───────────────────────────── audit resume and MCP clients ─────────────────────────────

/// What `audit resume` reports from the daemon's reply: a recovery (with
/// the path the corrupt outbox was rotated to, in bold, when given), or an
/// outbox that was already healthy.
pub open spec fn resume_message_spec(data: Option<JsonValue>) -> Seq<(Seq<char>, Style)> {
    let recovered = match data {
        Some(d) => bool_field(d, "recovered"@) == Some(true),
        None => false,
    };
    let rotated = match data {
        Some(d) => str_field(d, "rotated_path"@),
        None => None,
    };
    if recovered {
        match rotated {
            Some(p) => seq![
                ("✓"@, Style::Green),
                (" Audit resumed — rotated corrupt outbox to "@, Style::Plain),
                (p, Style::Bold),
            ],
            None => seq![("✓"@, Style::Green), (" Audit resumed."@, Style::Plain)],
        }
    } else {
        seq![("✓"@, Style::Green), (" Audit outbox already healthy — nothing to recover."@, Style::Plain)]
    }
}

pub fn resume_message(data: Option<&JsonValue>) -> (r: Vec<Span>)
    ensures
        line_v(r@) == resume_message_spec(
            match data {
                Some(d) => Some(*d),
                None => None,
            },
        ),
{
    let recovered = match data {
        Some(d) => match d.get_bool("recovered") {
            Some(b) => b,
            None => false,
        },
        None => false,
    };
    let rotated = match data {
        Some(d) => d.get_str("rotated_path"),
        None => None,
    };
    let mut l: Vec<Span> = Vec::new();
    push_span(&mut l, span("✓", Style::Green));
    if recovered {
        match rotated {
            Some(p) => {
                push_span(&mut l, span(" Audit resumed — rotated corrupt outbox to ", Style::Plain));
                push_span(&mut l, span(p, Style::Bold));
            },
            None => push_span(&mut l, span(" Audit resumed.", Style::Plain)),
        }
    } else {
        push_span(&mut l, span(" Audit outbox already healthy — nothing to recover.", Style::Plain));
    }
    proof {
        assert(line_v(l@) =~= resume_message_spec(
            match data {
                Some(d) => Some(*d),
                None => None,
            },
        ));
    }
    l
}

/// One registered MCP client: its tier in yellow, its name in bold and its
/// executable dimmed.
pub fn mcp_client_line(tier: AuditRiskTier, name: &str, exe_path: &str) -> (r: Vec<Span>)
    ensures
        line_v(r@) == seq![
            ("  "@, Style::Plain),
            (tier_name_spec(tier), Style::Yellow),
            ("  "@, Style::Plain),
            (name@, Style::Bold),
            ("  "@, Style::Plain),
            (exe_path@, Style::Dimmed),
        ],
{
    let mut l: Vec<Span> = Vec::new();
    push_span(&mut l, span("  ", Style::Plain));
    push_span(&mut l, span(tier_name(tier), Style::Yellow));
    push_span(&mut l, span("  ", Style::Plain));
    push_span(&mut l, span(name, Style::Bold));
    push_span(&mut l, span("  ", Style::Plain));
    push_span(&mut l, span(exe_path, Style::Dimmed));
    proof {
        assert(line_v(l@) =~= seq![
            ("  "@, Style::Plain),
            (tier_name_spec(tier), Style::Yellow),
            ("  "@, Style::Plain),
            (name@, Style::Bold),
            ("  "@, Style::Plain),
            (exe_path@, Style::Dimmed),
        ]);
    }
    l
}


// ───────────────────────────── config save ─────────────────────────────

/// `config save` reads its config from piped stdin only: a path is
/// refused (pointing at `config import`), and so is an interactive
/// terminal.
pub fn config_save_precheck(path: Option<&str>, stdin_is_terminal: bool) -> (r: Result<(), String>)
    ensures
        match path {
            Some(p) => r matches Err(m) && m@ == "`config save` commits a config body read from stdin; it does not take a path. To load a config FILE (under the daemon's path allowlist), use: `conductorctl config import "@
                + p@ + "`"@,
            None => if stdin_is_terminal {
                r matches Err(m) && m@
                    == "`config save` reads the config from stdin — pipe one in (e.g. `cat config.toml | conductorctl config save`), or use `conductorctl config import PATH` to load a file"@
            } else {
                r is Ok
            },
        },
{
    match path {
        Some(p) => Err(save_path_refusal(p)),
        None => if stdin_is_terminal {
            Err(
                String::from_str(
                    "`config save` reads the config from stdin — pipe one in (e.g. `cat config.toml | conductorctl config save`), or use `conductorctl config import PATH` to load a file",
                ),
            )
        } else {
            Ok(())
        },
    }
}

/// A config body that is only whitespace is refused.
pub fn config_body_check(text: &str) -> (r: Result<(), String>)
    ensures
        r is Ok <==> trim_spec(text@).len() > 0,
        r matches Err(m) ==> m@ == "`config save` read an empty config from stdin"@,
{
    if crate::text::is_blank(text) {
        proof {
            crate::text::lemma_trim_blank(text@);
        }
        Err(String::from_str("`config save` read an empty config from stdin"))
    } else {
        proof {
            crate::text::lemma_trim_blank(text@);
        }
        Ok(())
    }
}

/// The generation a save is based on: the `state_generation` of the
/// daemon's config snapshot.
pub fn snapshot_generation(data: Option<&JsonValue>) -> (r: Result<u64, String>)
    ensures
        match data {
            Some(d) => match u64_field(*d, "state_generation"@) {
                Some(g) => r == Ok::<u64, String>(g),
                None => r matches Err(m) && m@ == "daemon config snapshot did not include a u64 state_generation"@,
            },
            None => r matches Err(m) && m@ == "daemon config snapshot did not include a u64 state_generation"@,
        },
{
    let g = match data {
        Some(d) => d.get_u64("state_generation"),
        None => None,
    };
    match g {
        Some(v) => Ok(v),
        None => Err(String::from_str("daemon config snapshot did not include a u64 state_generation")),
    }
}

} // verus!
