//! `conductorctl playback-events`: reading a recorded CSV export back into
//! events, and the pacing between replayed events.
use vstd::prelude::*;
use crate::text::{parse_u64, parse_unsigned, trim, trim_spec, has_char};
use crate::json::{JsonValue, json_text_value, parse_json_text};

verus! {

// ───────────────────────────── splitting text ─────────────────────────────

/// The index of the first `c` in `s`, or its length when there is none.
pub open spec fn first_index(s: Seq<char>, c: char) -> nat
    decreases s.len(),
{
    if s.len() == 0 || s[0] == c {
        0
    } else {
        1 + first_index(s.drop_first(), c)
    }
}

pub proof fn lemma_first_index(s: Seq<char>, c: char)
    ensures
        first_index(s, c) <= s.len(),
        forall|i: int| 0 <= i < first_index(s, c) ==> s[i] != c,
        first_index(s, c) < s.len() ==> s[first_index(s, c) as int] == c,
    decreases s.len(),
{
    if s.len() > 0 && s[0] != c {
        lemma_first_index(s.drop_first(), c);
        assert forall|i: int| 0 <= i < first_index(s, c) implies s[i] != c by {
            if i > 0 {
                assert(s[i] == s.drop_first()[i - 1]);
            }
        }
        if first_index(s, c) < s.len() {
            assert(s[first_index(s, c) as int] == s.drop_first()[first_index(s, c) - 1]);
        }
    }
}

proof fn lemma_first_index_is(s: Seq<char>, c: char, k: int)
    requires
        0 <= k <= s.len(),
        forall|i: int| 0 <= i < k ==> s[i] != c,
        k == s.len() || s[k] == c,
    ensures
        first_index(s, c) == k,
    decreases s.len(),
{
    if k > 0 {
        assert forall|i: int| 0 <= i < k - 1 implies s.drop_first()[i] != c by {
            assert(s.drop_first()[i] == s[i + 1]);
        }
        if k < s.len() {
            assert(s.drop_first()[k - 1] == s[k]);
        }
        lemma_first_index_is(s.drop_first(), c, k - 1);
    }
}

/// `s.split(c)`: the pieces between the separators, empty ones included
/// (`""` gives one empty piece).
pub open spec fn split_on(s: Seq<char>, c: char) -> Seq<Seq<char>>
    decreases s.len(),
{
    let k = first_index(s, c);
    proof {
        lemma_first_index(s, c);
    }
    if k < s.len() {
        seq![s.take(k as int)] + split_on(s.skip(k + 1 as int), c)
    } else {
        seq![s]
    }
}

/// A piece without the separator is one piece.
pub proof fn lemma_split_single(y: Seq<char>, c: char)
    requires
        !has_char(y, c),
    ensures
        split_on(y, c) == seq![y],
{
    lemma_first_index_is(y, c, y.len() as int);
}

/// Appending a separator and a piece without it adds that piece at the end.
pub proof fn lemma_split_append(s: Seq<char>, y: Seq<char>, c: char)
    requires
        !has_char(y, c),
    ensures
        split_on(s + seq![c] + y, c) == split_on(s, c).push(y),
    decreases s.len(),
{
    let u = s + seq![c] + y;
    lemma_first_index(s, c);
    let k = first_index(s, c) as int;
    if k == s.len() {
        assert forall|i: int| 0 <= i < s.len() implies u[i] != c by {
            assert(u[i] == s[i]);
        }
        assert(u[s.len() as int] == c);
        lemma_first_index_is(u, c, s.len() as int);
        assert(u.take(s.len() as int) =~= s);
        assert(u.skip(s.len() as int + 1) =~= y);
        lemma_split_single(y, c);
        assert(split_on(s, c) == seq![s]);
        assert(split_on(u, c) =~= split_on(s, c).push(y));
    } else {
        assert forall|i: int| 0 <= i < k implies u[i] != c by {
            assert(u[i] == s[i]);
        }
        assert(u[k] == s[k]);
        lemma_first_index_is(u, c, k);
        assert(u.take(k) =~= s.take(k));
        assert(u.skip(k + 1) =~= s.skip(k + 1) + seq![c] + y);
        lemma_split_append(s.skip(k + 1), y, c);
        assert(split_on(u, c) =~= split_on(s, c).push(y));
    }
}

/// A line without the `\r` of a `\r\n` ending.
pub open spec fn strip_cr(l: Seq<char>) -> Seq<char> {
    if l.len() > 0 && l.last() == '\r' {
        l.drop_last()
    } else {
        l
    }
}

/// `BufRead::lines` over the text: lines end at `\n` (with a `\r` before it
/// dropped), a last line without an ending is kept, and a final `\n` does not
/// start another line.
pub open spec fn text_lines(s: Seq<char>) -> Seq<Seq<char>>
    decreases s.len(),
{
    if s.len() == 0 {
        Seq::empty()
    } else {
        let k = first_index(s, '\n');
        proof {
            lemma_first_index(s, '\n');
        }
        if k < s.len() {
            seq![strip_cr(s.take(k as int))] + text_lines(s.skip(k + 1 as int))
        } else {
            seq![s]
        }
    }
}

fn find_from(s: &str, c: char, start: usize) -> (r: usize)
    requires
        start <= s@.len(),
    ensures
        r == start + first_index(s@.skip(start as int), c),
        r <= s@.len(),
{
    let n = s.unicode_len();
    let mut j = start;
    while j < n && s.get_char(j) != c
        invariant
            n == s@.len(),
            start <= j <= n,
            forall|k: int| start <= k < j ==> s@[k] != c,
        decreases n - j,
    {
        j = j + 1;
    }
    proof {
        let t = s@.skip(start as int);
        assert forall|i: int| 0 <= i < j - start implies t[i] != c by {
            assert(t[i] == s@[start + i]);
        }
        if j < n {
            assert(t[j - start] == s@[j as int]);
        }
        lemma_first_index_is(t, c, j - start);
    }
    j
}

/// `s.split(c)`, collected.
pub fn split_char(s: &str, c: char) -> (r: Vec<&str>)
    ensures
        r@.map_values(|w: &str| w@) == split_on(s@, c),
{
    let n = s.unicode_len();
    let mut out: Vec<&str> = Vec::new();
    let mut i: usize = 0;
    proof {
        assert(s@.skip(0) =~= s@);
        assert(out@.map_values(|w: &str| w@) + split_on(s@, c) =~= split_on(s@, c));
    }
    loop
        invariant
            n == s@.len(),
            i <= n,
            out@.map_values(|w: &str| w@) + split_on(s@.skip(i as int), c) == split_on(s@, c),
        decreases n - i,
    {
        let ghost rest = s@.skip(i as int);
        let j = find_from(s, c, i);
        let piece = s.substring_char(i, j);
        proof {
            lemma_first_index(rest, c);
            assert(piece@ =~= rest.take(j - i));
        }
        let ghost before = out@;
        out.push(piece);
        proof {
            assert(out@.map_values(|w: &str| w@) =~= before.map_values(|w: &str| w@).push(piece@));
        }
        if j == n {
            proof {
                assert(rest.take(j - i) =~= rest);
                assert(out@.map_values(|w: &str| w@) =~= split_on(s@, c));
            }
            return out;
        }
        proof {
            assert(rest.skip(j - i + 1) =~= s@.skip(j + 1));
            assert(out@.map_values(|w: &str| w@) + split_on(s@.skip(j + 1), c) =~= before.map_values(
                |w: &str| w@,
            ) + split_on(rest, c));
        }
        i = j + 1;
    }
}

/// The lines of a text, as `BufRead::lines` yields them.
pub fn lines_of(s: &str) -> (r: Vec<&str>)
    ensures
        r@.map_values(|w: &str| w@) == text_lines(s@),
{
    let n = s.unicode_len();
    let mut out: Vec<&str> = Vec::new();
    let mut i: usize = 0;
    proof {
        assert(s@.skip(0) =~= s@);
        assert(out@.map_values(|w: &str| w@) + text_lines(s@) =~= text_lines(s@));
    }
    while i < n
        invariant
            n == s@.len(),
            i <= n,
            out@.map_values(|w: &str| w@) + text_lines(s@.skip(i as int)) == text_lines(s@),
        decreases n - i,
    {
        let ghost rest = s@.skip(i as int);
        let j = find_from(s, '\n', i);
        proof {
            lemma_first_index(rest, '\n');
        }
        let ghost before = out@;
        if j == n {
            let line = s.substring_char(i, n);
            proof {
                assert(line@ =~= rest);
            }
            out.push(line);
            proof {
                assert(out@.map_values(|w: &str| w@) =~= before.map_values(|w: &str| w@).push(line@));
                assert(s@.skip(n as int) =~= Seq::<char>::empty());
                assert(out@.map_values(|w: &str| w@) + text_lines(s@.skip(n as int)) =~= before.map_values(
                    |w: &str| w@,
                ) + text_lines(rest));
            }
            i = n;
        } else {
            let end = if j > i && s.get_char(j - 1) == '\r' {
                j - 1
            } else {
                j
            };
            let line = s.substring_char(i, end);
            proof {
                assert(line@ =~= strip_cr(rest.take(j - i)));
            }
            out.push(line);
            proof {
                assert(out@.map_values(|w: &str| w@) =~= before.map_values(|w: &str| w@).push(line@));
                assert(rest.skip(j - i + 1) =~= s@.skip(j + 1));
                assert(out@.map_values(|w: &str| w@) + text_lines(s@.skip(j + 1)) =~= before.map_values(
                    |w: &str| w@,
                ) + text_lines(rest));
            }
            i = j + 1;
        }
    }
    proof {
        assert(s@.skip(n as int) =~= Seq::<char>::empty());
        assert(out@.map_values(|w: &str| w@) =~= text_lines(s@));
    }
    out
}

// ───────────────────────────── CSV events ─────────────────────────────

/// A cell of a recorded event: a number when it reads as a `u64`, else text.
pub enum CsvValue {
    Number(u64),
    Text(String),
}

pub enum CsvValueView {
    Number(u64),
    Text(Seq<char>),
}

/// One named cell of a recorded event.
pub struct CsvField {
    pub name: String,
    pub value: CsvValue,
}

pub open spec fn value_v(v: CsvValue) -> CsvValueView {
    match v {
        CsvValue::Number(n) => CsvValueView::Number(n),
        CsvValue::Text(t) => CsvValueView::Text(t@),
    }
}

pub open spec fn fields_v(fs: Seq<CsvField>) -> Seq<(Seq<char>, CsvValueView)> {
    fs.map_values(|f: CsvField| (f.name@, value_v(f.value)))
}

/// A non-empty cell's value.
pub open spec fn cell_value(v: Seq<char>) -> CsvValueView {
    match parse_unsigned(v, u64::MAX as nat) {
        Some(n) => CsvValueView::Number(n as u64),
        None => CsvValueView::Text(v),
    }
}

/// Set a field of an event: replace the value of a field of that name, or
/// add the field at the end.
pub open spec fn set_field(obj: Seq<(Seq<char>, CsvValueView)>, k: Seq<char>, v: CsvValueView) -> Seq<
    (Seq<char>, CsvValueView),
> {
    if exists|j: int| 0 <= j < obj.len() && obj[j].0 == k {
        let j = choose|j: int| 0 <= j < obj.len() && obj[j].0 == k;
        obj.update(j, (k, v))
    } else {
        obj.push((k, v))
    }
}

/// Names are unique within an event.
pub open spec fn unique_names(obj: Seq<(Seq<char>, CsvValueView)>) -> bool {
    forall|a: int, b: int| 0 <= a < b < obj.len() ==> obj[a].0 != obj[b].0
}

/// The event of one data row, from the header's field names and the
/// row's cells taken up to position `i`: each non-empty (trimmed) cell under
/// its column's name.
pub open spec fn row_event(fields: Seq<Seq<char>>, values: Seq<Seq<char>>, i: nat) -> Seq<
    (Seq<char>, CsvValueView),
>
    decreases i,
{
    if i == 0 {
        Seq::empty()
    } else {
        let prev = row_event(fields, values, (i - 1) as nat);
        let j = i - 1;
        if j < values.len() && j < fields.len() && trim_spec(values[j]).len() > 0 {
            set_field(prev, fields[j], cell_value(trim_spec(values[j])))
        } else {
            prev
        }
    }
}

/// The events of the data rows (the lines after the header that are not
/// blank), each with the fields of the header.
pub open spec fn csv_events(fields: Seq<Seq<char>>, rows: Seq<Seq<char>>) -> Seq<
    Seq<(Seq<char>, CsvValueView)>,
>
    decreases rows.len(),
{
    if rows.len() == 0 {
        Seq::empty()
    } else {
        let rest = csv_events(fields, rows.drop_last());
        if trim_spec(rows.last()).len() == 0 {
            rest
        } else {
            rest.push(row_event(fields, split_on(rows.last(), ','), fields.len()))
        }
    }
}

/// A recorded CSV export read back: the first line names the columns (an
/// empty header when there is no line), and each later non-blank line is
/// an event.
pub open spec fn playback_csv_spec(content: Seq<char>) -> Seq<Seq<(Seq<char>, CsvValueView)>> {
    let lines = text_lines(content);
    let header = if lines.len() == 0 {
        Seq::empty()
    } else {
        lines[0]
    };
    csv_events(split_on(header, ','), if lines.len() == 0 {
        Seq::empty()
    } else {
        lines.drop_first()
    })
}

fn set_field_exec(obj: &mut Vec<CsvField>, name: &str, value: CsvValue)
    requires
        unique_names(fields_v(old(obj)@)),
    ensures
        unique_names(fields_v(final(obj)@)),
        fields_v(final(obj)@) == set_field(fields_v(old(obj)@), name@, value_v(value)),
{
    let ghost vv = value_v(value);
    let ghost o = fields_v(obj@);
    let n = obj.len();
    let mut j: usize = 0;
    while j < n
        invariant
            n == obj@.len(),
            obj@ == old(obj)@,
            o == fields_v(obj@),
            vv == value_v(value),
            unique_names(o),
            j <= n,
            forall|k: int| 0 <= k < j ==> obj@[k].name@ != name@,
        decreases n - j,
    {
        if crate::text::str_eq(obj[j].name.as_str(), name) {
            proof {
                assert(o[j as int].0 == name@);
                let c = choose|c: int| 0 <= c < o.len() && o[c].0 == name@;
                assert(c == j) by {
                    if c != j {
                        assert(o[c].0 == o[j as int].0);
                    }
                }
            }
            let f = CsvField { name: String::from_str(name), value };
            proof {
                assert(f.name@ == name@);
                assert(value_v(f.value) == vv);
            }
            obj.set(j, f);
            proof {
                assert(obj@ == old(obj)@.update(j as int, f));
                assert(fields_v(obj@) =~= o.update(j as int, (name@, vv)));
                assert forall|a: int, b: int| 0 <= a < b < fields_v(obj@).len() implies fields_v(
                    obj@,
                )[a].0 != fields_v(obj@)[b].0 by {
                    assert(fields_v(obj@)[a].0 == o[a].0);
                    assert(fields_v(obj@)[b].0 == o[b].0);
                }
            }
            return;
        }
        j = j + 1;
    }
    proof {
        assert(!exists|k: int| 0 <= k < o.len() && o[k].0 == name@) by {
            if exists|k: int| 0 <= k < o.len() && o[k].0 == name@ {
                let k = choose|k: int| 0 <= k < o.len() && o[k].0 == name@;
                assert(obj@[k].name@ == name@);
            }
        }
    }
    obj.push(CsvField { name: String::from_str(name), value });
    proof {
        assert(fields_v(obj@) =~= o.push((name@, vv)));
    }
}

fn row_to_event(fields: &Vec<&str>, values: &Vec<&str>) -> (r: Vec<CsvField>)
    ensures
        unique_names(fields_v(r@)),
        fields_v(r@) == row_event(
            fields@.map_values(|w: &str| w@),
            values@.map_values(|w: &str| w@),
            fields@.len(),
        ),
{
    let ghost fv = fields@.map_values(|w: &str| w@);
    let ghost vv = values@.map_values(|w: &str| w@);
    let mut ev: Vec<CsvField> = Vec::new();
    let mut i: usize = 0;
    proof {
        assert(fields_v(ev@) =~= Seq::<(Seq<char>, CsvValueView)>::empty());
    }
    while i < fields.len()
        invariant
            i <= fields@.len(),
            fv == fields@.map_values(|w: &str| w@),
            vv == values@.map_values(|w: &str| w@),
            unique_names(fields_v(ev@)),
            fields_v(ev@) == row_event(fv, vv, i as nat),
        decreases fields@.len() - i,
    {
        if i < values.len() {
            let v = trim(values[i]);
            proof {
                assert(vv[i as int] == values@[i as int]@);
                assert(fv[i as int] == fields@[i as int]@);
            }
            if v.unicode_len() > 0 {
                let value = match parse_u64(v) {
                    Some(n) => CsvValue::Number(n),
                    None => CsvValue::Text(String::from_str(v)),
                };
                set_field_exec(&mut ev, fields[i], value);
            }
        }
        i = i + 1;
    }
    ev
}

/// Read a recorded CSV export back into events.
pub fn parse_playback_csv(content: &str) -> (r: Vec<Vec<CsvField>>)
    ensures
        r@.map_values(|e: Vec<CsvField>| fields_v(e@)) == playback_csv_spec(content@),
{
    let lines = lines_of(content);
    let ghost lv = lines@.map_values(|w: &str| w@);
    let header: &str = if lines.len() == 0 {
        proof {
            reveal_strlit("");
        }
        ""
    } else {
        lines[0]
    };
    proof {
        if lines@.len() > 0 {
            assert(lv[0] == lines@[0]@);
        } else {
            assert(header@ =~= Seq::<char>::empty());
        }
    }
    let fields = split_char(header, ',');
    let ghost rows = if lv.len() == 0 {
        Seq::<Seq<char>>::empty()
    } else {
        lv.drop_first()
    };
    let mut out: Vec<Vec<CsvField>> = Vec::new();
    let mut i: usize = 1;
    proof {
        assert(rows.take(0) =~= Seq::<Seq<char>>::empty());
        assert(out@.map_values(|e: Vec<CsvField>| fields_v(e@)) =~= Seq::<
            Seq<(Seq<char>, CsvValueView)>,
        >::empty());
    }
    while i < lines.len()
        invariant
            1 <= i,
            lines@.len() == 0 ==> i == 1,
            lines@.len() == 0 || i <= lines@.len(),
            lv == lines@.map_values(|w: &str| w@),
            rows == if lv.len() == 0 {
                Seq::<Seq<char>>::empty()
            } else {
                lv.drop_first()
            },
            out@.map_values(|e: Vec<CsvField>| fields_v(e@)) == csv_events(
                fields@.map_values(|w: &str| w@),
                rows.take(i - 1),
            ),
        decreases lines@.len() - i,
    {
        let line = lines[i];
        proof {
            assert(rows.take(i as int).drop_last() =~= rows.take(i - 1));
            assert(rows.take(i as int).last() == line@);
        }
        if !crate::text::is_blank(line) {
            proof {
                crate::text::lemma_trim_blank(line@);
            }
            let values = split_char(line, ',');
            let ev = row_to_event(&fields, &values);
            let ghost before = out@;
            out.push(ev);
            proof {
                assert(out@.map_values(|e: Vec<CsvField>| fields_v(e@)) =~= before.map_values(
                    |e: Vec<CsvField>| fields_v(e@),
                ).push(fields_v(ev@)));
            }
        } else {
            proof {
                crate::text::lemma_trim_blank(line@);
            }
        }
        i = i + 1;
    }
    proof {
        assert(out@.map_values(|e: Vec<CsvField>| fields_v(e@)) == csv_events(
            fields@.map_values(|w: &str| w@),
            rows.take(i - 1),
        ));
        if lines@.len() > 0 {
            assert(i == lines@.len());
            assert(rows.len() == i - 1);
            assert(rows.take(i - 1) =~= rows);
        } else {
            assert(rows.take(0) =~= rows);
        }
        let lines_spec = text_lines(content@);
        assert(lv == lines_spec);
        let header_spec = if lines_spec.len() == 0 {
            Seq::<char>::empty()
        } else {
            lines_spec[0]
        };
        assert(header@ == header_spec);
        assert(fields@.map_values(|w: &str| w@) == split_on(header_spec, ','));
        let rows_spec = if lines_spec.len() == 0 {
            Seq::<Seq<char>>::empty()
        } else {
            lines_spec.drop_first()
        };
        assert(rows == rows_spec);
        assert(out@.map_values(|e: Vec<CsvField>| fields_v(e@)) == csv_events(
            fields@.map_values(|w: &str| w@),
            rows,
        ));
    }
    out
}

// ───────────────────────────── pacing ─────────────────────────────

/// The pacing of one replayed event: the gap since the last timestamped
/// event (0 when there was none, when timing is off, or when time went
/// backwards; an event without a timestamp counts as having the previous
/// one), and the timestamp to remember afterwards (only events with one
/// replace it).
pub fn playback_step(prev: Option<u64>, ts: Option<u64>, no_delay: bool) -> (r: (u64, Option<u64>))
    ensures
        r.0 == match prev {
            Some(p) => if no_delay {
                0
            } else {
                match ts {
                    Some(t) => if t >= p {
                        (t - p) as u64
                    } else {
                        0
                    },
                    None => 0,
                }
            },
            None => 0,
        },
        r.1 == match ts {
            Some(t) => Some(t),
            None => prev,
        },
{
    let delta = match prev {
        Some(p) => if no_delay {
            0
        } else {
            let t = match ts {
                Some(t) => t,
                None => p,
            };
            t.saturating_sub(p)
        },
        None => 0,
    };
    let next = match ts {
        Some(t) => Some(t),
        None => prev,
    };
    (delta, next)
}

// ───────────────────────────── JSON recordings ─────────────────────────────

/// The events of a JSON-lines recording, line by line: blank lines are
/// skipped, every other line is read as JSON, and the first line that is not
/// JSON fails the whole recording with the parser's message.
pub open spec fn json_lines_spec(ls: Seq<Seq<char>>) -> Result<Seq<JsonValue>, Seq<char>>
    decreases ls.len(),
{
    if ls.len() == 0 {
        Ok(Seq::empty())
    } else {
        match json_lines_spec(ls.drop_last()) {
            Err(e) => Err(e),
            Ok(vs) => if trim_spec(ls.last()).len() == 0 {
                Ok(vs)
            } else {
                match json_text_value(ls.last()) {
                    Ok(v) => Ok(vs.push(v)),
                    Err(e) => Err(e),
                }
            },
        }
    }
}

/// The events of a JSON recording: when its first non-blank character is
/// `[` the whole text is one JSON array of events; otherwise it is JSON
/// lines. Failures carry the parser's message after a prefix naming which
/// reading failed.
pub open spec fn playback_json_spec(content: Seq<char>) -> Result<Seq<JsonValue>, Seq<char>> {
    let t = trim_spec(content);
    if t.len() > 0 && t[0] == '[' {
        match json_text_value(content) {
            Ok(JsonValue::Array(items)) => Ok(items@),
            Ok(_) => Err("Failed to parse JSON events array: expected a JSON array"@),
            Err(e) => Err("Failed to parse JSON events array: "@ + e),
        }
    } else {
        match json_lines_spec(text_lines(content)) {
            Ok(vs) => Ok(vs),
            Err(e) => Err("Failed to parse JSON lines: "@ + e),
        }
    }
}

/// Read a JSON recording (an array, or JSON lines) into its events.
pub fn parse_playback_json(content: &str) -> (r: Result<Vec<JsonValue>, String>)
    ensures
        match r {
            Ok(v) => playback_json_spec(content@) == Ok::<Seq<JsonValue>, Seq<char>>(v@),
            Err(m) => playback_json_spec(content@) == Err::<Seq<JsonValue>, Seq<char>>(m@),
        },
{
    let t = trim(content);
    if t.unicode_len() > 0 && t.get_char(0) == '[' {
        return match parse_json_text(content) {
            Ok(JsonValue::Array(items)) => Ok(items),
            Ok(_) => Err(String::from_str("Failed to parse JSON events array: expected a JSON array")),
            Err(e) => {
                let mut m = String::from_str("Failed to parse JSON events array: ");
                m.append(e.as_str());
                Err(m)
            },
        };
    }
    let lines = lines_of(content);
    let ghost ls = lines@.map_values(|w: &str| w@);
    let mut out: Vec<JsonValue> = Vec::new();
    let n = lines.len();
    let mut i: usize = 0;
    while i < n
        invariant
            n == lines@.len(),
            i <= n,
            ls == lines@.map_values(|w: &str| w@),
            ls == text_lines(content@),
            !(trim_spec(content@).len() > 0 && trim_spec(content@)[0] == '['),
            json_lines_spec(ls.take(i as int)) == Ok::<Seq<JsonValue>, Seq<char>>(out@),
        decreases n - i,
    {
        let line = lines[i];
        proof {
            assert(ls.take(i + 1).drop_last() =~= ls.take(i as int));
            assert(ls.take(i + 1).last() == line@);
            crate::text::lemma_trim_blank(line@);
        }
        if !crate::text::is_blank(line) {
            match parse_json_text(line) {
                Ok(v) => {
                    out.push(v);
                },
                Err(e) => {
                    proof {
                        lemma_json_lines_err(ls, i as int + 1, e@);
                    }
                    let mut m = String::from_str("Failed to parse JSON lines: ");
                    m.append(e.as_str());
                    return Err(m);
                },
            }
        }
        i = i + 1;
    }
    proof {
        assert(ls.take(n as int) =~= ls);
    }
    Ok(out)
}

/// A failure within the first `k` lines is the failure of the whole.
proof fn lemma_json_lines_err(ls: Seq<Seq<char>>, k: int, e: Seq<char>)
    requires
        0 <= k <= ls.len(),
        json_lines_spec(ls.take(k)) == Err::<Seq<JsonValue>, Seq<char>>(e),
    ensures
        json_lines_spec(ls) == Err::<Seq<JsonValue>, Seq<char>>(e),
    decreases ls.len() - k,
{
    if k < ls.len() {
        assert(ls.take(k + 1).drop_last() =~= ls.take(k));
        lemma_json_lines_err(ls, k + 1, e);
    } else {
        assert(ls.take(k) =~= ls);
    }
}

} // verus!
