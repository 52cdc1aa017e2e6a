//! Terminal output as lines of styled pieces of text. The library decides
//! what is printed and in which style; the program maps each style to the
//! terminal's colours.
use vstd::prelude::*;

verus! {

/// How a piece of text is shown.
#[derive(Clone, Copy, Debug, PartialEq, Eq, Structural)]
pub enum Style {
    Plain,
    Bold,
    Dimmed,
    Green,
    GreenBold,
    Red,
    RedBold,
    Yellow,
    YellowBold,
    Cyan,
    CyanBold,
    Blue,
    BlueBold,
    Purple,
    PurpleBold,
    Magenta,
    MagentaBold,
    WhiteBold,
}

/// A piece of text in one style.
pub struct Span {
    pub text: String,
    pub style: Style,
}

pub open spec fn span_v(s: Span) -> (Seq<char>, Style) {
    (s.text@, s.style)
}

/// A line, seen as its pieces.
pub open spec fn line_v(l: Seq<Span>) -> Seq<(Seq<char>, Style)> {
    l.map_values(|s: Span| span_v(s))
}

/// Lines, each seen as its pieces.
pub open spec fn lines_v(ls: Seq<Vec<Span>>) -> Seq<Seq<(Seq<char>, Style)>> {
    ls.map_values(|l: Vec<Span>| line_v(l@))
}

/// A one-piece line.
pub open spec fn plain_line(t: Seq<char>) -> Seq<(Seq<char>, Style)> {
    seq![(t, Style::Plain)]
}

pub fn span(text: &str, style: Style) -> (r: Span)
    ensures
        span_v(r) == (text@, style),
{
    Span { text: String::from_str(text), style }
}

pub fn span_owned(text: String, style: Style) -> (r: Span)
    ensures
        span_v(r) == (text@, style),
{
    Span { text, style }
}

/// Append a piece to a line.
pub fn push_span(line: &mut Vec<Span>, s: Span)
    ensures
        line_v(final(line)@) == line_v(old(line)@).push(span_v(s)),
{
    line.push(s);
    proof {
        assert(line_v(final(line)@) =~= line_v(old(line)@).push(span_v(s)));
    }
}

/// Append a line.
pub fn push_line(lines: &mut Vec<Vec<Span>>, line: Vec<Span>)
    ensures
        lines_v(final(lines)@) == lines_v(old(lines)@).push(line_v(line@)),
{
    let ghost l = line@;
    lines.push(line);
    proof {
        assert(lines_v(final(lines)@) =~= lines_v(old(lines)@).push(line_v(l)));
    }
}

/// Append a one-piece plain line.
pub fn push_plain(lines: &mut Vec<Vec<Span>>, text: &str)
    ensures
        lines_v(final(lines)@) == lines_v(old(lines)@).push(plain_line(text@)),
{
    let mut l: Vec<Span> = Vec::new();
    push_span(&mut l, span(text, Style::Plain));
    proof {
        assert(line_v(l@) =~= plain_line(text@));
    }
    push_line(lines, l);
}

/// Append a one-piece line in the given style.
pub fn push_styled(lines: &mut Vec<Vec<Span>>, text: &str, style: Style)
    ensures
        lines_v(final(lines)@) == lines_v(old(lines)@).push(seq![(text@, style)]),
{
    let mut l: Vec<Span> = Vec::new();
    push_span(&mut l, span(text, style));
    proof {
        assert(line_v(l@) =~= seq![(text@, style)]);
    }
    push_line(lines, l);
}

} // verus!
