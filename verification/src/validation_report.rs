//! The human rendering of a config validation report (`profile validate`
//! and `validate-schema`): its errors and warnings, and the verdict.
use vstd::prelude::*;
use crate::text::{append_dec, dec};
use crate::styled::{Span, Style, span, span_owned, push_span, push_line, push_plain, push_styled, line_v, lines_v, plain_line};
use crate::service::{join_spec, path_join};

verus! {

/// One finding of a validation report: where, and what.
pub struct Finding {
    pub path: String,
    pub message: String,
}

/// A finding as a line: a coloured marker, then `<path>: <message>`.
pub open spec fn finding_line(marker: Seq<char>, style: Style, f: Finding) -> Seq<(Seq<char>, Style)> {
    seq![("  "@, Style::Plain), (marker, style), (" "@ + f.path@ + ": "@ + f.message@, Style::Plain)]
}

pub open spec fn findings_lines(marker: Seq<char>, style: Style, fs: Seq<Finding>) -> Seq<
    Seq<(Seq<char>, Style)>,
> {
    fs.map_values(|f: Finding| finding_line(marker, style, f))
}

/// The warnings block: nothing when there are none; otherwise a blank line,
/// the heading with the count, and one `!` line per warning.
pub open spec fn warnings_spec(ws: Seq<Finding>) -> Seq<Seq<(Seq<char>, Style)>> {
    if ws.len() == 0 {
        Seq::empty()
    } else {
        seq![
            plain_line(Seq::empty()),
            seq![("Warnings"@, Style::YellowBold), (" ("@ + dec(ws.len()) + "):"@, Style::Plain)],
        ] + findings_lines("!"@, Style::Yellow, ws)
    }
}

fn push_findings(lines: &mut Vec<Vec<Span>>, marker: &str, style: Style, fs: &Vec<Finding>)
    ensures
        lines_v(final(lines)@) == lines_v(old(lines)@) + findings_lines(marker@, style, fs@),
{
    let mut i: usize = 0;
    while i < fs.len()
        invariant
            i <= fs@.len(),
            lines_v(lines@) == lines_v(old(lines)@) + findings_lines(marker@, style, fs@.take(i as int)),
        decreases fs@.len() - i,
    {
        let mut l: Vec<Span> = Vec::new();
        push_span(&mut l, span("  ", Style::Plain));
        push_span(&mut l, span(marker, style));
        let mut t = String::from_str(" ");
        t.append(fs[i].path.as_str());
        t.append(": ");
        t.append(fs[i].message.as_str());
        push_span(&mut l, span_owned(t, Style::Plain));
        proof {
            assert(line_v(l@) =~= finding_line(marker@, style, fs@[i as int]));
        }
        push_line(lines, l);
        proof {
            assert(findings_lines(marker@, style, fs@.take(i + 1)) =~= findings_lines(
                marker@,
                style,
                fs@.take(i as int),
            ).push(finding_line(marker@, style, fs@[i as int])));
            assert(lines_v(lines@) =~= lines_v(old(lines)@) + findings_lines(marker@, style, fs@.take(i + 1)));
        }
        i = i + 1;
    }
    proof {
        assert(fs@.take(fs@.len() as int) =~= fs@);
    }
}

fn push_count_heading(lines: &mut Vec<Vec<Span>>, heading: &str, style: Style, n: usize, tail: &str)
    ensures
        lines_v(final(lines)@) == lines_v(old(lines)@).push(
            seq![(heading@, style), (" ("@ + dec(n as nat) + tail@, Style::Plain)],
        ),
{
    let mut l: Vec<Span> = Vec::new();
    push_span(&mut l, span(heading, style));
    let mut t = String::from_str(" (");
    append_dec(&mut t, n as u64);
    t.append(tail);
    push_span(&mut l, span_owned(t, Style::Plain));
    proof {
        assert(line_v(l@) =~= seq![(heading@, style), (" ("@ + dec(n as nat) + tail@, Style::Plain)]);
    }
    push_line(lines, l);
}

fn push_warnings(lines: &mut Vec<Vec<Span>>, ws: &Vec<Finding>)
    ensures
        lines_v(final(lines)@) == lines_v(old(lines)@) + warnings_spec(ws@),
{
    if ws.len() == 0 {
        proof {
            assert(lines_v(lines@) =~= lines_v(old(lines)@) + warnings_spec(ws@));
        }
        return;
    }
    push_plain(lines, "");
    push_count_heading(lines, "Warnings", Style::YellowBold, ws.len(), "):");
    let ghost mid = lines_v(lines@);
    push_findings(lines, "!", Style::Yellow, ws);
    proof {
        reveal_strlit("");
        assert(""@ =~= Seq::<char>::empty());
        assert(lines_v(lines@) =~= lines_v(old(lines)@) + warnings_spec(ws@));
    }
}

/// `profile validate`: the verdict (or the errors, counted, each marked
/// `✗`), then the warnings.
pub open spec fn profile_report_spec(errors: Seq<Finding>, warnings: Seq<Finding>) -> Seq<
    Seq<(Seq<char>, Style)>,
> {
    (if errors.len() == 0 {
        seq![seq![("✓ Profile config is valid"@, Style::GreenBold)]]
    } else {
        seq![
            seq![
                ("✗ Profile config has errors"@, Style::RedBold),
                (" ("@ + dec(errors.len()) + " error(s)):"@, Style::Plain),
            ],
        ] + findings_lines("✗"@, Style::Red, errors)
    }) + warnings_spec(warnings)
}

pub fn profile_report_lines(errors: &Vec<Finding>, warnings: &Vec<Finding>) -> (r: Vec<Vec<Span>>)
    ensures
        lines_v(r@) == profile_report_spec(errors@, warnings@),
{
    let mut lines: Vec<Vec<Span>> = Vec::new();
    if errors.len() == 0 {
        push_styled(&mut lines, "✓ Profile config is valid", Style::GreenBold);
    } else {
        push_count_heading(&mut lines, "✗ Profile config has errors", Style::RedBold, errors.len(), " error(s)):");
        push_findings(&mut lines, "✗", Style::Red, errors);
    }
    let ghost mid = lines_v(lines@);
    push_warnings(&mut lines, warnings);
    proof {
        assert(lines_v(lines@) =~= profile_report_spec(errors@, warnings@));
    }
    lines
}

/// `validate-schema`: the errors (counted, each marked `x`) or a green
/// `No errors`, then the warnings.
pub open spec fn schema_findings_spec(errors: Seq<Finding>, warnings: Seq<Finding>) -> Seq<
    Seq<(Seq<char>, Style)>,
> {
    (if errors.len() == 0 {
        seq![seq![("  No errors"@, Style::Green)]]
    } else {
        seq![seq![("Errors"@, Style::RedBold), (" ("@ + dec(errors.len()) + "):"@, Style::Plain)]]
            + findings_lines("x"@, Style::Red, errors)
    }) + warnings_spec(warnings)
}

pub fn schema_findings_lines(errors: &Vec<Finding>, warnings: &Vec<Finding>) -> (r: Vec<Vec<Span>>)
    ensures
        lines_v(r@) == schema_findings_spec(errors@, warnings@),
{
    let mut lines: Vec<Vec<Span>> = Vec::new();
    if errors.len() == 0 {
        push_styled(&mut lines, "  No errors", Style::Green);
    } else {
        push_count_heading(&mut lines, "Errors", Style::RedBold, errors.len(), "):");
        push_findings(&mut lines, "x", Style::Red, errors);
    }
    let ghost mid = lines_v(lines@);
    push_warnings(&mut lines, warnings);
    proof {
        assert(lines_v(lines@) =~= schema_findings_spec(errors@, warnings@));
    }
    lines
}

/// The closing verdict of `validate-schema`: valid exactly when there are
/// no errors.
pub fn schema_verdict_lines(error_count: usize) -> (r: Vec<Vec<Span>>)
    ensures
        error_count == 0 ==> lines_v(r@) == seq![
            plain_line(Seq::empty()),
            seq![("Config is valid"@, Style::GreenBold)],
        ],
        error_count > 0 ==> lines_v(r@) == seq![
            plain_line(Seq::empty()),
            seq![("Config has errors"@, Style::RedBold), (" ("@ + dec(error_count as nat) + " errors)"@, Style::Plain)],
        ],
{
    let mut lines: Vec<Vec<Span>> = Vec::new();
    push_plain(&mut lines, "");
    if error_count == 0 {
        push_styled(&mut lines, "Config is valid", Style::GreenBold);
    } else {
        push_count_heading(&mut lines, "Config has errors", Style::RedBold, error_count, " errors)");
    }
    proof {
        reveal_strlit("");
        assert(""@ =~= Seq::<char>::empty());
        assert(lines_v(lines@)[0] =~= plain_line(Seq::empty()));
    }
    lines
}

/// The config `validate-schema` reads: the one given, else
/// `<home>/.conductor/config.toml` (relative when there is no home).
pub fn schema_config_path(config: Option<&str>, home: Option<&str>) -> (r: String)
    ensures
        match config {
            Some(p) => r@ == p@,
            None => r@ == join_spec(
                join_spec(
                    match home {
                        Some(h) => h@,
                        None => Seq::empty(),
                    },
                    ".conductor"@,
                ),
                "config.toml"@,
            ),
        },
{
    match config {
        Some(p) => String::from_str(p),
        None => {
            let h = match home {
                Some(h) => h,
                None => "",
            };
            proof {
                reveal_strlit("");
                assert(""@ =~= Seq::<char>::empty());
            }
            let d = path_join(h, ".conductor");
            path_join(d.as_str(), "config.toml")
        },
    }
}

} // verus!
