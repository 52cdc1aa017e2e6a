//! `conductor-skills`: the report lines of a skill's validation errors and
//! the tally of a directory validation.
use vstd::prelude::*;
use crate::text::{append_dec, dec};
use crate::styled::{Span, Style, line_v, lines_v, plain_line, span, span_owned, push_span, push_line, push_plain};

verus! {

/// A reason a skill failed validation. Paths are carried as their debug
/// rendering (quoted), as the report shows them.
#[allow(inconsistent_fields)]
pub enum SkillValidationError {
    SkillMdNotFound(String),
    InvalidFrontmatter(String),
    MissingRequiredField(String),
    NameMismatch { expected: String, actual: String },
    ReferenceNotFound(String),
    TokenLimitExceeded { actual: u64, max: u64 },
    InvalidLicense(String),
    IoError(String),
    InvalidToolPattern(String),
}

/// The text of an error after its bullet.
pub open spec fn error_text(e: SkillValidationError) -> Seq<char> {
    match e {
        SkillValidationError::SkillMdNotFound(p) => "SKILL.md not found: "@ + p@,
        SkillValidationError::InvalidFrontmatter(m) => "Invalid frontmatter: "@ + m@,
        SkillValidationError::MissingRequiredField(f) => "Missing required field: "@ + f@,
        SkillValidationError::NameMismatch { expected, actual } => "Name mismatch: directory='"@ + expected@
            + "', skill.name='"@ + actual@ + "'"@,
        SkillValidationError::ReferenceNotFound(p) => "Reference not found: "@ + p@,
        SkillValidationError::TokenLimitExceeded { actual, max } => "Body exceeds token limit: "@ + dec(
            actual as nat,
        ) + " > "@ + dec(max as nat) + " (reduce content or use references)"@,
        SkillValidationError::InvalidLicense(l) => "Invalid license: "@ + l@ + " (use SPDX identifier)"@,
        SkillValidationError::IoError(m) => "IO error: "@ + m@,
        SkillValidationError::InvalidToolPattern(p) => "Invalid tool pattern: "@ + p@,
    }
}

/// The hint shown under some errors in verbose mode.
pub open spec fn error_hint(e: SkillValidationError) -> Option<Seq<char>> {
    match e {
        SkillValidationError::InvalidLicense(_) => Some(
            "        Valid examples: MIT, Apache-2.0, GPL-3.0, BSD-3-Clause"@,
        ),
        SkillValidationError::InvalidToolPattern(_) => Some(
            "        Valid format: namespace:pattern (e.g., conductor:get_*)"@,
        ),
        _ => None,
    }
}

/// The report lines of one error: a red bullet and its text, then, in
/// verbose mode, its hint if it has one.
pub open spec fn error_lines_spec(e: SkillValidationError, verbose: bool) -> Seq<Seq<(Seq<char>, Style)>> {
    seq![seq![("      "@, Style::Plain), ("•"@, Style::Red), (" "@ + error_text(e), Style::Plain)]] + match (
    verbose, error_hint(e)) {
        (true, Some(h)) => seq![plain_line(h)],
        _ => Seq::empty(),
    }
}

/// The text of an error.
pub fn error_string(e: &SkillValidationError) -> (r: String)
    ensures
        r@ == error_text(*e),
{
    let mut t = String::new();
    match e {
        SkillValidationError::SkillMdNotFound(p) => {
            t.append("SKILL.md not found: ");
            t.append(p.as_str());
        },
        SkillValidationError::InvalidFrontmatter(m) => {
            t.append("Invalid frontmatter: ");
            t.append(m.as_str());
        },
        SkillValidationError::MissingRequiredField(f) => {
            t.append("Missing required field: ");
            t.append(f.as_str());
        },
        SkillValidationError::NameMismatch { expected, actual } => {
            t.append("Name mismatch: directory='");
            t.append(expected.as_str());
            t.append("', skill.name='");
            t.append(actual.as_str());
            t.append("'");
        },
        SkillValidationError::ReferenceNotFound(p) => {
            t.append("Reference not found: ");
            t.append(p.as_str());
        },
        SkillValidationError::TokenLimitExceeded { actual, max } => {
            t.append("Body exceeds token limit: ");
            append_dec(&mut t, *actual);
            t.append(" > ");
            append_dec(&mut t, *max);
            t.append(" (reduce content or use references)");
        },
        SkillValidationError::InvalidLicense(l) => {
            t.append("Invalid license: ");
            t.append(l.as_str());
            t.append(" (use SPDX identifier)");
        },
        SkillValidationError::IoError(m) => {
            t.append("IO error: ");
            t.append(m.as_str());
        },
        SkillValidationError::InvalidToolPattern(p) => {
            t.append("Invalid tool pattern: ");
            t.append(p.as_str());
        },
    }
    proof {
        assert(t@ =~= error_text(*e));
    }
    t
}

/// The report lines of one validation error.
pub fn validation_error_lines(e: &SkillValidationError, verbose: bool) -> (r: Vec<Vec<Span>>)
    ensures
        lines_v(r@) == error_lines_spec(*e, verbose),
{
    let mut t = String::from_str(" ");
    let et = error_string(e);
    t.append(et.as_str());
    proof {
        assert(t@ =~= " "@ + error_text(*e));
    }
    let mut first: Vec<Span> = Vec::new();
    push_span(&mut first, span("      ", Style::Plain));
    push_span(&mut first, span("•", Style::Red));
    push_span(&mut first, span_owned(t, Style::Plain));
    proof {
        assert(line_v(first@) =~= seq![
            ("      "@, Style::Plain),
            ("•"@, Style::Red),
            (" "@ + error_text(*e), Style::Plain),
        ]);
    }
    let mut lines: Vec<Vec<Span>> = Vec::new();
    push_line(&mut lines, first);
    if verbose {
        match e {
            SkillValidationError::InvalidLicense(_) => push_plain(
                &mut lines,
                "        Valid examples: MIT, Apache-2.0, GPL-3.0, BSD-3-Clause",
            ),
            SkillValidationError::InvalidToolPattern(_) => push_plain(
                &mut lines,
                "        Valid format: namespace:pattern (e.g., conductor:get_*)",
            ),
            _ => {},
        }
    }
    proof {
        assert(lines_v(lines@) =~= error_lines_spec(*e, verbose));
    }
    lines
}

/// How many of the validated skills passed and failed.
pub open spec fn count_valid(results: Seq<bool>) -> nat
    decreases results.len(),
{
    if results.len() == 0 {
        0
    } else {
        count_valid(results.drop_last()) + if results.last() {
            1nat
        } else {
            0nat
        }
    }
}

proof fn lemma_count_valid_le(results: Seq<bool>)
    ensures
        count_valid(results) <= results.len(),
    decreases results.len(),
{
    if results.len() > 0 {
        lemma_count_valid_le(results.drop_last());
    }
}

/// `(valid, invalid)` for a directory validation (`true` = valid); the
/// command fails when any skill is invalid.
pub fn tally_skills(results: &Vec<bool>) -> (r: (usize, usize))
    ensures
        r.0 == count_valid(results@),
        r.0 + r.1 == results@.len(),
{
    let n = results.len();
    let mut valid: usize = 0;
    let mut i: usize = 0;
    while i < n
        invariant
            n == results@.len(),
            i <= n,
            valid == count_valid(results@.take(i as int)),
            valid <= i,
        decreases n - i,
    {
        proof {
            assert(results@.take(i + 1).drop_last() =~= results@.take(i as int));
        }
        if results[i] {
            valid = valid + 1;
        }
        i = i + 1;
    }
    proof {
        assert(results@.take(n as int) =~= results@);
    }
    (valid, n - valid)
}


// ───────────────────────────── listing ─────────────────────────────

/// What the listing shows of a skill that loaded.
pub struct SkillSummary {
    pub version: Option<String>,
    pub description: String,
    pub license: String,
    pub body_tokens: u64,
}

pub open spec fn version_text(v: Option<String>) -> Seq<char> {
    match v {
        Some(x) => x@,
        None => "?"@,
    }
}

/// The listing lines of a skill that loaded: a cyan bullet, its bold name
/// and its dimmed version; in verbose mode also its description, license
/// and token count.
pub open spec fn valid_entry_spec(name: Seq<char>, s: SkillSummary, verbose: bool) -> Seq<Seq<(Seq<char>, Style)>> {
    seq![
        seq![
            ("  "@, Style::Plain),
            ("•"@, Style::Cyan),
            (" "@, Style::Plain),
            (name, Style::Bold),
            (" "@, Style::Plain),
            ("v"@ + version_text(s.version), Style::Dimmed),
        ],
    ] + if verbose {
        seq![
            seq![("      "@, Style::Plain), (s.description@, Style::Dimmed)],
            plain_line("      License: "@ + s.license@ + " | Tokens: ~"@ + dec(s.body_tokens as nat)),
        ]
    } else {
        Seq::empty()
    }
}

/// The listing lines of a skill that did not load: a red bullet, its name
/// and a red `(invalid)`; in verbose mode each error in red.
pub open spec fn invalid_entry_spec(name: Seq<char>, errors: Seq<SkillValidationError>, verbose: bool) -> Seq<
    Seq<(Seq<char>, Style)>,
> {
    seq![
        seq![
            ("  "@, Style::Plain),
            ("•"@, Style::Red),
            (" "@ + name + " "@, Style::Plain),
            ("(invalid)"@, Style::Red),
        ],
    ] + if verbose {
        errors.map_values(|e: SkillValidationError| seq![("      "@, Style::Plain), (error_text(e), Style::Red)])
    } else {
        Seq::empty()
    }
}

/// The listing lines of one skill that loaded.
pub fn valid_entry_lines(name: &str, s: &SkillSummary, verbose: bool) -> (r: Vec<Vec<Span>>)
    ensures
        lines_v(r@) == valid_entry_spec(name@, *s, verbose),
{
    let mut first: Vec<Span> = Vec::new();
    push_span(&mut first, span("  ", Style::Plain));
    push_span(&mut first, span("•", Style::Cyan));
    push_span(&mut first, span(" ", Style::Plain));
    push_span(&mut first, span(name, Style::Bold));
    push_span(&mut first, span(" ", Style::Plain));
    let mut v = String::from_str("v");
    match &s.version {
        Some(x) => v.append(x.as_str()),
        None => v.append("?"),
    }
    push_span(&mut first, span_owned(v, Style::Dimmed));
    proof {
        assert(line_v(first@) =~= seq![
            ("  "@, Style::Plain),
            ("•"@, Style::Cyan),
            (" "@, Style::Plain),
            (name@, Style::Bold),
            (" "@, Style::Plain),
            ("v"@ + version_text(s.version), Style::Dimmed),
        ]);
    }
    let mut lines: Vec<Vec<Span>> = Vec::new();
    push_line(&mut lines, first);
    if verbose {
        let mut d: Vec<Span> = Vec::new();
        push_span(&mut d, span("      ", Style::Plain));
        push_span(&mut d, span(s.description.as_str(), Style::Dimmed));
        proof {
            assert(line_v(d@) =~= seq![("      "@, Style::Plain), (s.description@, Style::Dimmed)]);
        }
        push_line(&mut lines, d);
        let mut t = String::from_str("      License: ");
        t.append(s.license.as_str());
        t.append(" | Tokens: ~");
        append_dec(&mut t, s.body_tokens);
        push_plain(&mut lines, t.as_str());
    }
    proof {
        assert(lines_v(lines@) =~= valid_entry_spec(name@, *s, verbose));
    }
    lines
}

/// The listing lines of one skill that did not load.
pub fn invalid_entry_lines(name: &str, errors: &Vec<SkillValidationError>, verbose: bool) -> (r: Vec<Vec<Span>>)
    ensures
        lines_v(r@) == invalid_entry_spec(name@, errors@, verbose),
{
    let mut first: Vec<Span> = Vec::new();
    push_span(&mut first, span("  ", Style::Plain));
    push_span(&mut first, span("•", Style::Red));
    let mut t = String::from_str(" ");
    t.append(name);
    t.append(" ");
    push_span(&mut first, span_owned(t, Style::Plain));
    push_span(&mut first, span("(invalid)", Style::Red));
    proof {
        assert(line_v(first@) =~= seq![
            ("  "@, Style::Plain),
            ("•"@, Style::Red),
            (" "@ + name@ + " "@, Style::Plain),
            ("(invalid)"@, Style::Red),
        ]);
    }
    let mut lines: Vec<Vec<Span>> = Vec::new();
    push_line(&mut lines, first);
    let ghost head = lines_v(lines@);
    if verbose {
        let mut i: usize = 0;
        while i < errors.len()
            invariant
                i <= errors@.len(),
                lines_v(lines@) == head + errors@.take(i as int).map_values(
                    |e: SkillValidationError| seq![("      "@, Style::Plain), (error_text(e), Style::Red)],
                ),
            decreases errors@.len() - i,
        {
            let mut l: Vec<Span> = Vec::new();
            push_span(&mut l, span("      ", Style::Plain));
            let et = error_string(&errors[i]);
            push_span(&mut l, span_owned(et, Style::Red));
            proof {
                assert(line_v(l@) =~= seq![("      "@, Style::Plain), (error_text(errors@[i as int]), Style::Red)]);
            }
            push_line(&mut lines, l);
            proof {
                assert(errors@.take(i + 1).map_values(
                    |e: SkillValidationError| seq![("      "@, Style::Plain), (error_text(e), Style::Red)],
                ) =~= errors@.take(i as int).map_values(
                    |e: SkillValidationError| seq![("      "@, Style::Plain), (error_text(e), Style::Red)],
                ).push(seq![("      "@, Style::Plain), (error_text(errors@[i as int]), Style::Red)]));
            }
            i = i + 1;
        }
        proof {
            assert(errors@.take(errors@.len() as int) =~= errors@);
        }
    }
    proof {
        assert(lines_v(lines@) =~= invalid_entry_spec(name@, errors@, verbose));
    }
    lines
}

} // verus!
