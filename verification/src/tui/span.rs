//! Styled text: spans, lines and what they hold.

use vstd::prelude::*;
use crate::tui::theme::Style;

verus! {

/// A run of text in one style.
#[derive(Clone, Debug)]
pub struct Span {
    pub content: String,
    pub style: Style,
}

/// The text and style of a span.
pub struct SpanView {
    pub content: Seq<char>,
    pub style: Style,
}

impl View for Span {
    type V = SpanView;

    open spec fn view(&self) -> SpanView {
        SpanView { content: self.content@, style: self.style }
    }
}

/// One line of the display.
#[derive(Clone, Debug)]
pub struct Line {
    pub spans: Vec<Span>,
}

impl View for Line {
    type V = Seq<SpanView>;

    open spec fn view(&self) -> Seq<SpanView> {
        self.spans@.map_values(|s: Span| s@)
    }
}

/// The lines of a display, each as the spans it holds.
pub open spec fn lines_view(v: Seq<Line>) -> Seq<Seq<SpanView>> {
    v.map_values(|l: Line| l@)
}

/// A span of `content` in `style`.
pub open spec fn styled_view(content: Seq<char>, style: Style) -> SpanView {
    SpanView { content, style }
}

/// A span of `content` in `style`.
pub fn styled(content: &str, style: Style) -> (r: Span)
    ensures
        r@ == styled_view(content@, style),
{
    Span { content: content.to_owned(), style }
}

/// A span of `content` without colour or modifier.
pub fn raw(content: &str) -> (r: Span)
    ensures
        r@ == styled_view(content@, Style::plain()),
{
    styled(content, Style::plain())
}

impl Line {
    /// A line without spans.
    pub fn new() -> (r: Line)
        ensures
            r@ == Seq::<SpanView>::empty(),
    {
        let r = Line { spans: Vec::new() };
        assert(r@ =~= Seq::<SpanView>::empty());
        r
    }

    /// Appends a span.
    pub fn push(&mut self, span: Span)
        ensures
            final(self)@ == old(self)@.push(span@),
    {
        let ghost before = self@;
        self.spans.push(span);
        assert(self@ =~= before.push(span@));
    }
}

/// An empty line.
pub open spec fn blank() -> Seq<SpanView> {
    seq![styled_view(""@, Style::plain())]
}

/// A line of one span.
pub fn line1(a: Span) -> (r: Line)
    ensures
        r@ == seq![a@],
{
    let mut r = Line::new();
    r.push(a);
    assert(r@ =~= seq![a@]);
    r
}

/// A line of two spans.
pub fn line2(a: Span, b: Span) -> (r: Line)
    ensures
        r@ == seq![a@, b@],
{
    let mut r = line1(a);
    r.push(b);
    assert(r@ =~= seq![a@, b@]);
    r
}

/// A line of three spans.
pub fn line3(a: Span, b: Span, c: Span) -> (r: Line)
    ensures
        r@ == seq![a@, b@, c@],
{
    let mut r = line2(a, b);
    r.push(c);
    assert(r@ =~= seq![a@, b@, c@]);
    r
}

/// Appends a line.
pub fn push_line(v: &mut Vec<Line>, line: Line)
    ensures
        lines_view(final(v)@) == lines_view(old(v)@).push(line@),
{
    let ghost before = lines_view(v@);
    v.push(line);
    assert(lines_view(v@) =~= before.push(line@));
}

/// A copy of a line.
pub fn copy_line(line: &Line) -> (r: Line)
    ensures
        r@ == line@,
{
    let mut r = Line::new();
    let mut i: usize = 0;
    assert(r@ =~= line@.take(0));
    while i < line.spans.len()
        invariant
            i <= line.spans@.len(),
            r@ == line@.take(i as int),
        decreases line.spans@.len() - i,
    {
        let s = styled(line.spans[i].content.as_str(), line.spans[i].style);
        assert(s@ == line@[i as int]);
        r.push(s);
        i = i + 1;
        assert(r@ =~= line@.take(i as int));
    }
    assert(line@.take(i as int) =~= line@);
    r
}

/// A copy of lines.
pub fn copy_lines(v: &Vec<Line>) -> (r: Vec<Line>)
    ensures
        lines_view(r@) == lines_view(v@),
{
    let mut r: Vec<Line> = Vec::new();
    let mut i: usize = 0;
    assert(lines_view(r@) =~= lines_view(v@).take(0));
    while i < v.len()
        invariant
            i <= v@.len(),
            lines_view(r@) == lines_view(v@).take(i as int),
        decreases v@.len() - i,
    {
        let line = copy_line(&v[i]);
        assert(line@ == lines_view(v@)[i as int]);
        push_line(&mut r, line);
        i = i + 1;
        assert(lines_view(r@) =~= lines_view(v@).take(i as int));
    }
    assert(lines_view(v@).take(i as int) =~= lines_view(v@));
    r
}

/// Appends lines.
pub fn append_lines(v: &mut Vec<Line>, more: Vec<Line>)
    ensures
        lines_view(final(v)@) == lines_view(old(v)@) + lines_view(more@),
{
    let ghost before = lines_view(v@);
    let ghost added = lines_view(more@);
    let mut more = more;
    v.append(&mut more);
    assert(lines_view(v@) =~= before + added);
}

} // verus!
