//! `conductorctl profile | mode | led | plugin`: which profile names are
//! safe as file names, where a profile lives, the new-profile skeleton, the
//! profile listing, and the texts of the mode, LED and plugin commands.
use vstd::prelude::*;
use crate::text::{
    all_ws, is_blank, has_char, contains_char, contains_str, contains_seq, ends_with, occurs_at,
    char_is_alphanumeric, is_alphanumeric, ascii_alphanumeric, lex_le, str_le, lemma_lex_le_total, lemma_lex_le_trans,
    append_dec, dec, trim, trim_spec, eq_ignore_ascii_case, ascii_ci_eq,
};
use crate::json::{JsonValue, str_field, bool_field, spec_get, opt_array, opt_str};
use crate::service::{join_spec, path_join};

verus! {

broadcast use vstd::seq_lib::group_to_multiset_ensures;

// ───────────────────────────── profile names ─────────────────────────────

/// The number of bytes of a character in UTF-8.
pub open spec fn utf8_width(c: char) -> nat {
    if (c as u32) < 0x80 {
        1
    } else if (c as u32) < 0x800 {
        2
    } else if (c as u32) < 0x10000 {
        3
    } else {
        4
    }
}

/// `str::len`: the length of the UTF-8 encoding.
pub open spec fn utf8_len(s: Seq<char>) -> nat
    decreases s.len(),
{
    if s.len() == 0 {
        0
    } else {
        utf8_len(s.drop_last()) + utf8_width(s.last())
    }
}

/// `s.len()` in bytes, stopping at `limit + 1` (enough to compare with
/// `limit`).
fn utf8_len_capped(s: &str, limit: usize) -> (r: usize)
    requires
        limit < usize::MAX - 4,
    ensures
        r <= limit <==> utf8_len(s@) <= limit,
{
    let n = s.unicode_len();
    let mut total: usize = 0;
    let mut i: usize = 0;
    while i < n
        invariant
            n == s@.len(),
            i <= n,
            total == utf8_len(s@.take(i as int)),
            total <= limit,
            limit < usize::MAX - 4,
        decreases n - i,
    {
        let c = s.get_char(i);
        let w: usize = if (c as u32) < 0x80 {
            1
        } else if (c as u32) < 0x800 {
            2
        } else if (c as u32) < 0x10000 {
            3
        } else {
            4
        };
        proof {
            assert(s@.take(i + 1).drop_last() =~= s@.take(i as int));
        }
        total = total + w;
        i = i + 1;
        if total > limit {
            proof {
                lemma_utf8_len_prefix(s@, i as int);
            }
            return total;
        }
    }
    proof {
        assert(s@.take(n as int) =~= s@);
    }
    total
}

proof fn lemma_utf8_len_prefix(s: Seq<char>, i: int)
    requires
        0 <= i <= s.len(),
    ensures
        utf8_len(s.take(i)) <= utf8_len(s),
    decreases s.len() - i,
{
    if i < s.len() {
        lemma_utf8_len_prefix(s, i + 1);
        assert(s.take(i + 1).drop_last() =~= s.take(i));
    } else {
        assert(s.take(i) =~= s);
    }
}

/// The ASCII characters a profile name may hold: letters, digits, `-`,
/// `_` and space (so never `.` or a path separator).
pub open spec fn ascii_name_char(c: char) -> bool {
    ascii_alphanumeric(c) || c == '-' || c == '_' || c == ' '
}

/// A character allowed in a profile name.
pub open spec fn name_char_ok(c: char) -> bool {
    char_is_alphanumeric(c) || c == '-' || c == '_' || c == ' '
}

/// Why a profile name is refused, in the order the checks run; `None` for a
/// valid name.
pub open spec fn profile_name_error(name: Seq<char>) -> Option<Seq<char>> {
    if name.len() == 0 || all_ws(name) {
        Some("Profile name cannot be empty"@)
    } else if utf8_len(name) > 64 {
        Some("Profile name too long (max 64 characters)"@)
    } else if has_char(name, '/') || has_char(name, '\\') || has_char(name, '\0') || contains_seq(
        name,
        ".."@,
    ) {
        Some("Profile name contains invalid characters"@)
    } else if !(forall|i: int| 0 <= i < name.len() ==> #[trigger] name_char_ok(name[i])) {
        Some(
            "Profile name may only contain alphanumeric characters, hyphens, underscores, and spaces"@,
        )
    } else {
        None
    }
}

/// Validate a profile name to prevent path traversal and invalid filenames.
#[verifier::loop_isolation(false)]
pub fn validate_profile_name(name: &str) -> (r: Result<(), String>)
    ensures
        match profile_name_error(name@) {
            None => r is Ok,
            Some(m) => r matches Err(e) && e@ == m,
        },
        r is Ok ==> forall|k: int|
            0 <= k < name@.len() && #[trigger] name@[k] <= '\u{7f}' ==> ascii_name_char(name@[k]),
{
    if name.unicode_len() == 0 || is_blank(name) {
        return Err(String::from_str("Profile name cannot be empty"));
    }
    if utf8_len_capped(name, 64) > 64 {
        return Err(String::from_str("Profile name too long (max 64 characters)"));
    }
    if contains_char(name, '/') || contains_char(name, '\\') || contains_char(name, '\0') || contains_str(
        name,
        "..",
    ) {
        return Err(String::from_str("Profile name contains invalid characters"));
    }
    let n = name.unicode_len();
    let mut i: usize = 0;
    while i < n
        invariant
            n == name@.len(),
            i <= n,
            forall|k: int| 0 <= k < i ==> #[trigger] name_char_ok(name@[k]),
            forall|k: int| 0 <= k < i && #[trigger] name@[k] <= '\u{7f}' ==> ascii_name_char(name@[k]),
        decreases n - i,
    {
        let c = name.get_char(i);
        if !(is_alphanumeric(c) || c == '-' || c == '_' || c == ' ') {
            proof {
                assert(!name_char_ok(name@[i as int]));
            }
            return Err(
                String::from_str(
                    "Profile name may only contain alphanumeric characters, hyphens, underscores, and spaces",
                ),
            );
        }
        i = i + 1;
    }
    Ok(())
}

/// An argument is a path (kept as given) when it holds a `/` or ends with
/// `.toml`; otherwise it is a profile name.
pub open spec fn is_path_like(s: Seq<char>) -> bool {
    has_char(s, '/') || (s.len() >= 5 && occurs_at(s, ".toml"@, s.len() - 5))
}

pub open spec fn profiles_dir_spec(config_dir: Seq<char>) -> Seq<char> {
    join_spec(join_spec(config_dir, "conductor"@), "profiles"@)
}

/// `<config dir>/conductor/profiles`.
pub fn profiles_dir(config_dir: &str) -> (r: String)
    ensures
        r@ == profiles_dir_spec(config_dir@),
{
    let c = path_join(config_dir, "conductor");
    path_join(c.as_str(), "profiles")
}

/// Resolve a profile name or path to a concrete path: a path is kept as
/// given; a name is validated and placed at
/// `<config dir>/conductor/profiles/<name>.toml`.
pub fn resolve_profile_path(name_or_path: &str, config_dir: Option<&str>) -> (r: Result<String, String>)
    ensures
        is_path_like(name_or_path@) ==> (r matches Ok(p) && p@ == name_or_path@),
        !is_path_like(name_or_path@) ==> match profile_name_error(name_or_path@) {
            Some(m) => r matches Err(e) && e@ == m,
            None => match config_dir {
                Some(d) => r matches Ok(p) && p@ == join_spec(
                    profiles_dir_spec(d@),
                    name_or_path@ + ".toml"@,
                ),
                None => r matches Err(e) && e@ == "Could not determine config directory"@,
            },
        },
{
    if contains_char(name_or_path, '/') || ends_with(name_or_path, ".toml") {
        proof {
            reveal_strlit(".toml");
        }
        return Ok(String::from_str(name_or_path));
    }
    proof {
        reveal_strlit(".toml");
    }
    validate_profile_name(name_or_path)?;
    match config_dir {
        Some(d) => {
            let dir = profiles_dir(d);
            let mut file = String::from_str(name_or_path);
            file.append(".toml");
            Ok(path_join(dir.as_str(), file.as_str()))
        },
        None => Err(String::from_str("Could not determine config directory")),
    }
}

// ───────────────────────────── profile create ─────────────────────────────

/// A mode of a new profile: its name and optional colour.
pub struct ModeSeed {
    pub name: String,
    pub color: Option<String>,
}

/// The modes of a new profile: a blue `Default` mode when no app is named,
/// otherwise one uncoloured mode per app, named after it, in order.
pub fn profile_modes(apps: &Vec<String>) -> (r: Vec<ModeSeed>)
    ensures
        apps@.len() == 0 ==> r@.len() == 1 && r@[0].name@ == "Default"@ && (r@[0].color matches Some(
            c,
        ) && c@ == "blue"@),
        apps@.len() > 0 ==> r@.len() == apps@.len() && forall|i: int|
            0 <= i < apps@.len() ==> r@[i].name@ == apps@[i]@ && r@[i].color is None,
{
    let mut out: Vec<ModeSeed> = Vec::new();
    if apps.len() == 0 {
        out.push(ModeSeed { name: String::from_str("Default"), color: Some(String::from_str("blue")) });
        return out;
    }
    let mut i: usize = 0;
    while i < apps.len()
        invariant
            i <= apps@.len(),
            out@.len() == i,
            forall|k: int| 0 <= k < i ==> out@[k].name@ == apps@[k]@ && out@[k].color is None,
        decreases apps@.len() - i,
    {
        out.push(ModeSeed { name: String::from_str(apps[i].as_str()), color: None });
        i = i + 1;
    }
    out
}

/// The file written for a new profile: a two-line header naming it, a blank
/// line, then the serialized config.
pub fn profile_file_content(name: &str, toml_body: &str) -> (r: String)
    ensures
        r@ == "# Conductor profile: "@ + name@ + "\n# Created by conductorctl\n\n"@ + toml_body@,
{
    let mut s = String::from_str("# Conductor profile: ");
    s.append(name);
    s.append("\n# Created by conductorctl\n\n");
    s.append(toml_body);
    s
}

/// The interactive delete confirmation accepts `y` or `Y`, surrounding
/// whitespace ignored.
pub fn confirms_delete(answer: &str) -> (r: bool)
    ensures
        r == ascii_ci_eq(trim_spec(answer@), "y"@),
{
    eq_ignore_ascii_case(trim(answer), "y")
}

// ───────────────────────────── profile list ─────────────────────────────

/// A `.toml` file of the profiles directory: its file name and size.
pub struct ProfileFile {
    pub name: String,
    pub size: u64,
}

pub open spec fn sorted_by_name(s: Seq<ProfileFile>) -> bool {
    forall|i: int, j: int| 0 <= i <= j < s.len() ==> lex_le(s[i].name@, s[j].name@)
}

/// The number of leading files whose name sorts strictly before `name`:
/// where a file named `name` goes, before every file with an equal name.
pub open spec fn first_name_ge(t: Seq<ProfileFile>, name: Seq<char>) -> int
    decreases t.len(),
{
    if t.len() == 0 || lex_le(name, t[0].name@) {
        0
    } else {
        1 + first_name_ge(t.drop_first(), name)
    }
}

/// The stable ordering by name: the first file goes in front of the
/// equal-named files of the ordered rest, so equal names keep their input
/// order.
pub open spec fn stable_by_name(s: Seq<ProfileFile>) -> Seq<ProfileFile>
    decreases s.len(),
{
    if s.len() == 0 {
        Seq::empty()
    } else {
        let rest = stable_by_name(s.drop_first());
        rest.insert(first_name_ge(rest, s[0].name@), s[0])
    }
}

proof fn lemma_first_name_ge(t: Seq<ProfileFile>, name: Seq<char>, p: int)
    requires
        0 <= p <= t.len(),
        forall|i: int| 0 <= i < p ==> !lex_le(name, #[trigger] t[i].name@),
        p == t.len() || lex_le(name, t[p].name@),
    ensures
        first_name_ge(t, name) == p,
    decreases p,
{
    if p > 0 {
        let d = t.drop_first();
        assert forall|i: int| 0 <= i < p - 1 implies !lex_le(name, #[trigger] d[i].name@) by {
            assert(d[i] == t[i + 1]);
        }
        assert(!lex_le(name, t[0].name@));
        if p < t.len() {
            assert(d[p - 1] == t[p]);
        }
        lemma_first_name_ge(d, name, p - 1);
    }
}

/// Order the listing by file name (`sort_by(|a, b| a.0.cmp(&b.0))`): the
/// same files, sorted; equal names keep their order.
pub fn sort_profiles(files: Vec<ProfileFile>) -> (r: Vec<ProfileFile>)
    ensures
        r@ == stable_by_name(files@),
        sorted_by_name(r@),
        r@.to_multiset() == files@.to_multiset(),
{
    let ghost all = files@;
    let mut input = files;
    let mut out: Vec<ProfileFile> = Vec::new();
    proof {
        assert(all.skip(all.len() as int) =~= Seq::<ProfileFile>::empty());
    }
    while input.len() > 0
        invariant
            sorted_by_name(out@),
            out@.to_multiset().add(input@.to_multiset()) == all.to_multiset(),
            input@.len() <= all.len(),
            input@ == all.take(input@.len() as int),
            out@ == stable_by_name(all.skip(input@.len() as int)),
        decreases input@.len(),
    {
        let ghost before_in = input@;
        let ghost before_out = out@;
        let x = input.pop().unwrap();
        proof {
            assert(before_in =~= input@.push(x));
        }
        let mut p: usize = 0;
        while p < out.len() && !str_le(x.name.as_str(), out[p].name.as_str())
            invariant
                p <= out@.len(),
                out@ == before_out,
                forall|k: int| 0 <= k < p ==> !lex_le(x.name@, #[trigger] out@[k].name@),
            decreases out@.len() - p,
        {
            p = p + 1;
        }
        proof {
            assert forall|k: int| 0 <= k < p implies lex_le(#[trigger] before_out[k].name@, x.name@) by {
                lemma_lex_le_total(before_out[k].name@, x.name@);
            }
            if p < before_out.len() {
                assert(lex_le(x.name@, before_out[p as int].name@));
            }
        }
        proof {
            let m = input@.len() as int;
            assert(all.take(m + 1) == before_in);
            assert(x == all[m]);
            assert(input@ =~= all.take(m));
            let tail = all.skip(m);
            assert(tail.drop_first() =~= all.skip(m + 1));
            assert(tail[0] == x);
            lemma_first_name_ge(before_out, x.name@, p as int);
        }
        out.insert(p, x);
        proof {
            assert(out@ == before_out.insert(p as int, x));
            assert forall|i: int, j: int| 0 <= i <= j < out@.len() implies lex_le(
                out@[i].name@,
                out@[j].name@,
            ) by {
                if i == j {
                    crate::text::lemma_lex_le_total(out@[i].name@, out@[i].name@);
                } else if j < p {
                    assert(out@[i] == before_out[i] && out@[j] == before_out[j]);
                } else if i < p && j == p {
                    assert(out@[i] == before_out[i]);
                } else if i < p && j > p {
                    assert(out@[i] == before_out[i] && out@[j] == before_out[j - 1]);
                } else if i == p && j > p {
                    assert(out@[j] == before_out[j - 1]);
                    lemma_lex_le_trans(x.name@, before_out[p as int].name@, before_out[j - 1].name@);
                } else {
                    assert(out@[i] == before_out[i - 1] && out@[j] == before_out[j - 1]);
                }
            }
            assert(out@.to_multiset() == before_out.to_multiset().insert(x));
            assert(before_in.to_multiset() == input@.to_multiset().insert(x));
            assert(out@.to_multiset().add(input@.to_multiset()) =~= all.to_multiset());
        }
    }
    proof {
        assert(input@.to_multiset() =~= vstd::multiset::Multiset::empty());
        assert(out@.to_multiset() =~= all.to_multiset());
        assert(all.skip(0) =~= all);
    }
    out
}

/// One line of the listing: `"  <name> (<size> bytes)"`.
pub fn profile_list_line(f: &ProfileFile) -> (r: String)
    ensures
        r@ == "  "@ + f.name@ + " ("@ + dec(f.size as nat) + " bytes)"@,
{
    let mut s = String::from_str("  ");
    s.append(f.name.as_str());
    s.append(" (");
    append_dec(&mut s, f.size);
    s.append(" bytes)");
    s
}

// ───────────────────────────── mode, LED, plugin ─────────────────────────────

/// The mode-status screen: the active mode (`?` when missing), and the lock
/// origin when the mode is locked (`?` when missing).
pub fn mode_status_fields(data: &JsonValue) -> (r: (String, Option<String>))
    ensures
        r.0@ == match str_field(*data, "mode"@) {
            Some(m) => m,
            None => "?"@,
        },
        bool_field(*data, "locked"@) == Some(true) ==> (r.1 matches Some(o) && o@ == match str_field(
            *data,
            "lock_origin"@,
        ) {
            Some(x) => x,
            None => "?"@,
        }),
        bool_field(*data, "locked"@) != Some(true) ==> r.1 is None,
{
    let mode = match data.get_str("mode") {
        Some(m) => String::from_str(m),
        None => String::from_str("?"),
    };
    let locked = match data.get_bool("locked") {
        Some(b) => b,
        None => false,
    };
    let origin = if locked {
        match data.get_str("lock_origin") {
            Some(o) => Some(String::from_str(o)),
            None => Some(String::from_str("?")),
        }
    } else {
        None
    };
    (mode, origin)
}

/// `led brightness` accepts 0-127.
pub fn check_led_brightness(level: u8) -> (r: Result<(), String>)
    ensures
        level <= 127 <==> r is Ok,
        r matches Err(m) ==> m@ == "Brightness must be 0-127, got "@ + dec(level as nat),
{
    if level > 127 {
        let mut m = String::from_str("Brightness must be 0-127, got ");
        append_dec(&mut m, level as u64);
        Err(m)
    } else {
        Ok(())
    }
}

/// The plugin names of one list of the `plugin list` payload, each as its
/// string or `?`.
pub open spec fn plugin_names(items: Seq<JsonValue>) -> Seq<Seq<char>>
    decreases items.len(),
{
    if items.len() == 0 {
        Seq::empty()
    } else {
        plugin_names(items.drop_last()).push(
            match opt_str(Some(items.last())) {
                Some(s) => s,
                None => "?"@,
            },
        )
    }
}

/// `data[key]` as an array of plugin names, when it is an array.
pub fn plugin_name_list(data: &JsonValue, key: &str) -> (r: Option<Vec<String>>)
    ensures
        match opt_array(spec_get(*data, key@)) {
            Some(items) => r matches Some(v) && v@.map_values(|s: String| s@) == plugin_names(items),
            None => r is None,
        },
{
    let items = match data.get(key) {
        Some(v) => match v.as_array() {
            Some(a) => a,
            None => return None,
        },
        None => return None,
    };
    let mut out: Vec<String> = Vec::new();
    let mut i: usize = 0;
    while i < items.len()
        invariant
            i <= items@.len(),
            out@.map_values(|s: String| s@) == plugin_names(items@.take(i as int)),
        decreases items@.len() - i,
    {
        let name = match items[i].as_str() {
            Some(s) => String::from_str(s),
            None => String::from_str("?"),
        };
        proof {
            assert(items@.take(i + 1).drop_last() =~= items@.take(i as int));
        }
        let ghost before = out@;
        out.push(name);
        proof {
            assert(out@.map_values(|s: String| s@) =~= before.map_values(|s: String| s@).push(name@));
        }
        i = i + 1;
    }
    proof {
        assert(items@.take(items@.len() as int) =~= items@);
    }
    Some(out)
}

/// The error of a failed `plugin info`.
pub fn plugin_info_error(name: &str, message: &str) -> (r: String)
    ensures
        r@ == "Plugin '"@ + name@ + "': "@ + message@,
{
    let mut m = String::from_str("Plugin '");
    m.append(name);
    m.append("': ");
    m.append(message);
    m
}

} // verus!
