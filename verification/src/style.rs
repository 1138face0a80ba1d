//! Styled text: colours, spans and lines, as plain values.

use crate::text;
use vstd::prelude::*;

verus! {

#[derive(Debug, Clone, Copy, PartialEq, Eq, Structural)]
pub enum Color {
    Black,
    Red,
    Green,
    Yellow,
    Cyan,
    Gray,
    DarkGray,
    Rgb(u8, u8, u8),
}

/// How a piece of text looks. What is not set is left as the terminal has it.
#[derive(Debug, Clone, Copy, PartialEq, Eq, Structural)]
pub struct Style {
    pub fg: Option<Color>,
    pub bg: Option<Color>,
    pub underline_color: Option<Color>,
    pub bold: bool,
    pub dim: bool,
    pub italic: bool,
    pub underlined: bool,
    pub crossed_out: bool,
}

impl Style {
    #[verifier::allow_in_spec]
    pub fn new() -> Style
        returns
            (Style {
                fg: None,
                bg: None,
                underline_color: None,
                bold: false,
                dim: false,
                italic: false,
                underlined: false,
                crossed_out: false,
            }),
    {
        Style {
            fg: None,
            bg: None,
            underline_color: None,
            bold: false,
            dim: false,
            italic: false,
            underlined: false,
            crossed_out: false,
        }
    }

    #[verifier::allow_in_spec]
    pub fn fg(self, c: Color) -> Style
        returns
            (Style { fg: Some(c), ..self }),
    {
        Style { fg: Some(c), ..self }
    }

    #[verifier::allow_in_spec]
    pub fn bg(self, c: Color) -> Style
        returns
            (Style { bg: Some(c), ..self }),
    {
        Style { bg: Some(c), ..self }
    }

    #[verifier::allow_in_spec]
    pub fn underline_color(self, c: Color) -> Style
        returns
            (Style { underline_color: Some(c), ..self }),
    {
        Style { underline_color: Some(c), ..self }
    }

    #[verifier::allow_in_spec]
    pub fn bold(self) -> Style
        returns
            (Style { bold: true, ..self }),
    {
        Style { bold: true, ..self }
    }

    #[verifier::allow_in_spec]
    pub fn dim(self) -> Style
        returns
            (Style { dim: true, ..self }),
    {
        Style { dim: true, ..self }
    }

    #[verifier::allow_in_spec]
    pub fn italic(self) -> Style
        returns
            (Style { italic: true, ..self }),
    {
        Style { italic: true, ..self }
    }

    #[verifier::allow_in_spec]
    pub fn underlined(self) -> Style
        returns
            (Style { underlined: true, ..self }),
    {
        Style { underlined: true, ..self }
    }

    #[verifier::allow_in_spec]
    pub fn crossed_out(self) -> Style
        returns
            (Style { crossed_out: true, ..self }),
    {
        Style { crossed_out: true, ..self }
    }
}

/// A run of text in one style.
#[derive(Debug)]
pub struct Span {
    pub content: String,
    pub style: Style,
}

/// What a span shows.
pub struct SpanView {
    pub content: Seq<char>,
    pub style: Style,
}

impl View for Span {
    type V = SpanView;

    open spec fn view(&self) -> SpanView {
        SpanView { content: self.content@, style: self.style }
    }
}

/// A run of text in the terminal's own style.
pub open spec fn raw(content: Seq<char>) -> SpanView {
    SpanView { content, style: Style::new() }
}

pub open spec fn styled(content: Seq<char>, style: Style) -> SpanView {
    SpanView { content, style }
}

impl Span {
    pub fn raw(content: String) -> (r: Span)
        ensures
            r@ == raw(content@),
    {
        Span { content, style: Style::new() }
    }

    pub fn styled(content: String, style: Style) -> (r: Span)
        ensures
            r@ == styled(content@, style),
    {
        Span { content, style }
    }
}

/// A line of spans, with a style under the spans' own.
#[derive(Debug)]
pub struct Line {
    pub spans: Vec<Span>,
    pub style: Style,
}

/// What a line shows.
#[verifier::ext_equal]
pub struct LineView {
    pub spans: Seq<SpanView>,
    pub style: Style,
}

/// What the spans of a vector show.
pub open spec fn span_views(v: Seq<Span>) -> Seq<SpanView> {
    v.map_values(|s: Span| s@)
}

impl View for Line {
    type V = LineView;

    open spec fn view(&self) -> LineView {
        LineView { spans: span_views(self.spans@), style: self.style }
    }
}

/// What the lines of a vector show.
pub open spec fn line_views(v: Seq<Line>) -> Seq<LineView> {
    v.map_values(|l: Line| l@)
}

/// A line of spans with no style of its own.
pub open spec fn plain_line(spans: Seq<SpanView>) -> LineView {
    LineView { spans, style: Style::new() }
}

/// The text of a run of spans.
pub open spec fn joined_spans(spans: Seq<SpanView>) -> Seq<char>
    decreases spans.len(),
{
    if spans.len() == 0 {
        Seq::empty()
    } else {
        spans[0].content + joined_spans(spans.drop_first())
    }
}

pub proof fn lemma_joined_spans_add(a: Seq<SpanView>, b: Seq<SpanView>)
    ensures
        joined_spans(a + b) == joined_spans(a) + joined_spans(b),
    decreases a.len(),
{
    if a.len() == 0 {
        assert(a + b =~= b);
        assert(joined_spans(a) + joined_spans(b) =~= joined_spans(b));
    } else {
        assert((a + b).drop_first() =~= a.drop_first() + b);
        lemma_joined_spans_add(a.drop_first(), b);
        assert(joined_spans(a + b) =~= joined_spans(a) + joined_spans(b));
    }
}

impl Line {
    pub fn plain(spans: Vec<Span>) -> (r: Line)
        ensures
            r@ == plain_line(span_views(spans@)),
    {
        Line { spans, style: Style::new() }
    }

    /// A line of one styled span.
    pub fn styled(content: String, style: Style) -> (r: Line)
        ensures
            r@ == plain_line(seq![styled(content@, style)]),
    {
        let mut spans: Vec<Span> = Vec::new();
        spans.push(Span::styled(content, style));
        assert(span_views(spans@) =~= seq![styled(content@, style)]);
        Line { spans, style: Style::new() }
    }
}

/// A text as one line: a span for each of its own lines.
pub open spec fn text_line(s: Seq<char>) -> LineView {
    plain_line(text::lines_of(s).map_values(|l: Seq<char>| raw(l)))
}

impl Line {
    pub fn from_text(s: &str) -> (r: Line)
        ensures
            r@ == text_line(s@),
    {
        let lines = text::lines(s);
        let ghost want = text_line(s@).spans;
        let ghost all = text::texts(lines@);
        let mut spans: Vec<Span> = Vec::new();
        let mut i: usize = 0;
        while i < lines.len()
            invariant
                i <= lines@.len(),
                all == text::texts(lines@),
                all == text::lines_of(s@),
                want == text_line(s@).spans,
                span_views(spans@) == want.take(i as int),
            decreases lines@.len() - i,
        {
            let ghost before = spans@;
            spans.push(Span::raw(lines[i].clone()));
            assert(all[i as int] == lines@[i as int]@);
            assert(spans@.last()@ == want[i as int]);
            assert(span_views(spans@) =~= span_views(before).push(want[i as int]));
            assert(want.take(i + 1) =~= want.take(i as int).push(want[i as int]));
            i += 1;
        }
        assert(want.take(i as int) =~= want);
        Line::plain(spans)
    }
}

/// A text as many lines, one for each of its own, and one empty line where it is empty.
pub open spec fn text_lines(s: Seq<char>) -> Seq<LineView> {
    if s.len() == 0 {
        seq![plain_line(Seq::empty())]
    } else {
        text::lines_of(s).map_values(|l: Seq<char>| text_line(l))
    }
}

pub fn lines_from_text(s: &str) -> (r: Vec<Line>)
    ensures
        line_views(r@) == text_lines(s@),
{
    let mut out: Vec<Line> = Vec::new();
    if s.is_empty() {
        out.push(Line::plain(Vec::new()));
        assert(span_views(out@[0].spans@) =~= Seq::<SpanView>::empty());
        assert(line_views(out@) =~= text_lines(s@));
        return out;
    }
    let lines = text::lines(s);
    let ghost want = text_lines(s@);
    let ghost all = text::texts(lines@);
    let mut i: usize = 0;
    while i < lines.len()
        invariant
            i <= lines@.len(),
            s@.len() > 0,
            all == text::texts(lines@),
            all == text::lines_of(s@),
            want == text_lines(s@),
            line_views(out@) == want.take(i as int),
        decreases lines@.len() - i,
    {
        let ghost before = out@;
        out.push(Line::from_text(lines[i].as_str()));
        assert(all[i as int] == lines@[i as int]@);
        assert(out@.last()@ == want[i as int]);
        assert(line_views(out@) =~= line_views(before).push(want[i as int]));
        assert(want.take(i + 1) =~= want.take(i as int).push(want[i as int]));
        i += 1;
    }
    assert(want.take(i as int) =~= want);
    out
}

/// Puts the spans of `more` behind those of `spans`.
pub fn extend_spans(spans: &mut Vec<Span>, more: Vec<Span>)
    ensures
        span_views(final(spans)@) == span_views(old(spans)@) + span_views(more@),
{
    let mut rest = more;
    spans.append(&mut rest);
    assert(span_views(spans@) =~= span_views(old(spans)@) + span_views(more@));
}

/// Puts the lines of `more` behind those of `lines`.
pub fn extend_lines(lines: &mut Vec<Line>, more: Vec<Line>)
    ensures
        line_views(final(lines)@) == line_views(old(lines)@) + line_views(more@),
{
    let mut rest = more;
    lines.append(&mut rest);
    assert(line_views(lines@) =~= line_views(old(lines)@) + line_views(more@));
}

} // verus!
