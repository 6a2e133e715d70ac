//! Styled text as the transcript draws it: lines of spans.

use vstd::prelude::*;

verus! {

/// How a span is drawn.
#[derive(Clone, Copy, Debug, PartialEq, Eq, Structural)]
pub enum SpanStyle {
    Plain,
    Dim,
    Bold,
    Cyan,
    CyanBold,
    Magenta,
    Yellow,
    Green,
    GreenBold,
    Red,
    RedBold,
}

/// A run of text in one style.
#[derive(Clone, Debug, PartialEq, Eq)]
pub struct StyledSpan {
    pub style: SpanStyle,
    pub text: String,
}

/// A span as (style, text).
pub open spec fn span_view(s: StyledSpan) -> (SpanStyle, Seq<char>) {
    (s.style, s.text@)
}

/// A line as (style, text) pairs.
pub open spec fn line_view(line: Seq<StyledSpan>) -> Seq<(SpanStyle, Seq<char>)> {
    line.map_values(|s: StyledSpan| span_view(s))
}

/// Lines as (style, text) pairs.
pub open spec fn lines_view(lines: Seq<Vec<StyledSpan>>) -> Seq<Seq<(SpanStyle, Seq<char>)>> {
    lines.map_values(|l: Vec<StyledSpan>| line_view(l@))
}

pub fn span(style: SpanStyle, text: String) -> (s: StyledSpan)
    ensures
        span_view(s) == (style, text@),
{
    StyledSpan { style, text }
}

/// A line of two spans.
pub fn pair_line(first: StyledSpan, second: StyledSpan) -> (l: Vec<StyledSpan>)
    ensures
        line_view(l@) == seq![span_view(first), span_view(second)],
{
    let mut l: Vec<StyledSpan> = Vec::new();
    let ghost a = span_view(first);
    let ghost b = span_view(second);
    l.push(first);
    l.push(second);
    assert(line_view(l@) =~= seq![a, b]);
    l
}

/// Puts `first_prefix` in front of the first line and `rest_prefix` in
/// front of every other line.
pub open spec fn prefixed(
    lines: Seq<Seq<(SpanStyle, Seq<char>)>>,
    first_prefix: (SpanStyle, Seq<char>),
    rest_prefix: (SpanStyle, Seq<char>),
) -> Seq<Seq<(SpanStyle, Seq<char>)>> {
    Seq::new(
        lines.len(),
        |i: int|
            seq![
                if i == 0 {
                    first_prefix
                } else {
                    rest_prefix
                },
            ] + lines[i],
    )
}

/// Prefixes lines as `prefixed` describes.
pub fn prefix_lines(lines: Vec<Vec<StyledSpan>>, first_prefix: &StyledSpan, rest_prefix: &StyledSpan) -> (r:
    Vec<Vec<StyledSpan>>)
    ensures
        lines_view(r@) == prefixed(
            lines_view(lines@),
            span_view(*first_prefix),
            span_view(*rest_prefix),
        ),
{
    let ghost input = lines_view(lines@);
    let mut out: Vec<Vec<StyledSpan>> = Vec::new();
    let mut i: usize = 0;
    let n = lines.len();
    while i < n
        invariant
            n == lines@.len(),
            i <= n,
            input == lines_view(lines@),
            lines_view(out@) == prefixed(input, span_view(*first_prefix), span_view(*rest_prefix)).subrange(
                0,
                i as int,
            ),
        decreases n - i,
    {
        let prefix = if i == 0 {
            first_prefix
        } else {
            rest_prefix
        };
        let mut line: Vec<StyledSpan> = Vec::new();
        line.push(StyledSpan { style: prefix.style, text: prefix.text.clone() });
        let mut j: usize = 0;
        while j < lines[i].len()
            invariant
                i < n == lines@.len(),
                j <= lines@[i as int]@.len(),
                line_view(line@) == seq![span_view(*prefix)] + line_view(lines@[i as int]@).subrange(
                    0,
                    j as int,
                ),
            decreases lines@[i as int]@.len() - j,
        {
            let ghost before = line_view(line@);
            line.push(StyledSpan { style: lines[i][j].style, text: lines[i][j].text.clone() });
            assert(line_view(line@) =~= before.push(span_view(lines@[i as int]@[j as int])));
            j = j + 1;
            assert(line_view(line@) =~= seq![span_view(*prefix)] + line_view(lines@[i as int]@).subrange(
                0,
                j as int,
            ));
        }
        assert(line_view(lines@[i as int]@).subrange(0, lines@[i as int]@.len() as int) =~= line_view(
            lines@[i as int]@,
        ));
        let ghost before = lines_view(out@);
        out.push(line);
        proof {
            let p = prefixed(input, span_view(*first_prefix), span_view(*rest_prefix));
            assert(lines_view(out@) =~= before.push(p[i as int]));
            assert(p.subrange(0, i + 1) =~= p.subrange(0, i as int).push(p[i as int]));
        }
        i = i + 1;
    }
    assert(prefixed(input, span_view(*first_prefix), span_view(*rest_prefix)).subrange(0, n as int)
        =~= prefixed(input, span_view(*first_prefix), span_view(*rest_prefix)));
    out
}


/// Adds a span at the end of a line.
pub fn push_span(line: &mut Vec<StyledSpan>, s: StyledSpan)
    ensures
        line_view(final(line)@) == line_view(old(line)@).push(span_view(s)),
{
    let ghost before = line_view(line@);
    let ghost sv = span_view(s);
    line.push(s);
    assert(line_view(line@) =~= before.push(sv));
}

/// Adds spans at the end of a line.
pub fn append_spans(line: &mut Vec<StyledSpan>, more: Vec<StyledSpan>)
    ensures
        line_view(final(line)@) == line_view(old(line)@) + line_view(more@),
{
    let ghost before = line_view(line@);
    let ghost rest = line_view(more@);
    let mut more = more;
    line.append(&mut more);
    assert(line_view(line@) =~= before + rest);
}

/// Adds a line at the end of some lines.
pub fn push_line(lines: &mut Vec<Vec<StyledSpan>>, line: Vec<StyledSpan>)
    ensures
        lines_view(final(lines)@) == lines_view(old(lines)@).push(line_view(line@)),
{
    let ghost before = lines_view(lines@);
    let ghost lv = line_view(line@);
    lines.push(line);
    assert(lines_view(lines@) =~= before.push(lv));
}

} // verus!
