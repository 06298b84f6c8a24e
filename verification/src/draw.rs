//! Styled text: what a screen asks the terminal to show.
use vstd::prelude::*;

use crate::theme::Style;

verus! {

/// The smaller of two numbers.
pub open spec fn least(a: int, b: int) -> int {
    if a <= b {
        a
    } else {
        b
    }
}

/// A difference that stops at zero.
pub open spec fn less(a: int, b: int) -> int {
    if a >= b {
        a - b
    } else {
        0
    }
}

/// A run of text in one style.
#[derive(Debug, Clone)]
pub struct Span {
    pub content: String,
    pub style: Style,
}

/// What a [`Span`] shows.
#[verifier::ext_equal]
pub struct SpanView {
    pub content: Seq<char>,
    pub style: Style,
}

impl View for Span {
    type V = SpanView;

    open spec fn view(&self) -> SpanView {
        SpanView { content: self.content@, style: self.style }
    }
}

/// One line of styled runs.
#[derive(Debug, Clone)]
pub struct Line {
    pub spans: Vec<Span>,
}

/// What a sequence of spans shows.
pub open spec fn span_views(v: Seq<Span>) -> Seq<SpanView> {
    Seq::new(v.len(), |i: int| v[i]@)
}

impl View for Line {
    type V = Seq<SpanView>;

    open spec fn view(&self) -> Seq<SpanView> {
        span_views(self.spans@)
    }
}

/// What a sequence of lines shows.
pub open spec fn line_views(v: Seq<Line>) -> Seq<Seq<SpanView>> {
    Seq::new(v.len(), |i: int| v[i]@)
}

/// What a list of blocks of lines shows.
pub open spec fn block_views(v: Seq<Vec<Line>>) -> Seq<Seq<Seq<SpanView>>> {
    Seq::new(v.len(), |i: int| line_views(v[i]@))
}

/// A run of `content` in `style`.
pub open spec fn span(content: Seq<char>, style: Style) -> SpanView {
    SpanView { content, style }
}

/// A line made of one run.
pub open spec fn one(content: Seq<char>, style: Style) -> Seq<SpanView> {
    seq![span(content, style)]
}

/// A line that shows nothing.
pub open spec fn blank() -> Seq<SpanView> {
    Seq::empty()
}

/// The text of a line, its runs put together.
pub open spec fn line_text(l: Seq<SpanView>) -> Seq<char>
    decreases l.len(),
{
    if l.len() == 0 {
        Seq::empty()
    } else {
        line_text(l.drop_last()) + l.last().content
    }
}

impl Span {
    pub fn new(content: String, style: Style) -> (r: Span)
        ensures
            r@ == span(content@, style),
            r.content == content,
            r.style == style,
    {
        Span { content, style }
    }

    /// A run of fixed text.
    pub fn of(content: &str, style: Style) -> (r: Span)
        ensures
            r@ == span(content@, style),
    {
        Span { content: content.to_owned(), style }
    }

    pub fn copy(&self) -> (r: Span)
        ensures
            r == *self,
    {
        Span { content: self.content.clone(), style: self.style }
    }
}

impl Line {
    /// A line that shows nothing.
    pub fn empty() -> (r: Line)
        ensures
            r@ == blank(),
    {
        let r = Line { spans: Vec::new() };
        assert(r@ =~= blank());
        r
    }

    pub fn new(spans: Vec<Span>) -> (r: Line)
        ensures
            r.spans == spans,
            r@ == span_views(spans@),
    {
        Line { spans }
    }

    /// A line made of one run.
    pub fn single(content: String, style: Style) -> (r: Line)
        ensures
            r@ == one(content@, style),
    {
        let mut spans: Vec<Span> = Vec::new();
        spans.push(Span::new(content, style));
        let r = Line { spans };
        assert(r@ =~= one(content@, style));
        r
    }

    /// A line made of one run of fixed text.
    pub fn of(content: &str, style: Style) -> (r: Line)
        ensures
            r@ == one(content@, style),
    {
        Line::single(content.to_owned(), style)
    }

    /// The text of the line, its runs put together.
    pub fn text(&self) -> (r: String)
        ensures
            r@ == line_text(self@),
    {
        let mut r = String::new();
        let mut i: usize = 0;
        while i < self.spans.len()
            invariant
                i <= self.spans@.len(),
                r@ == line_text(self@.take(i as int)),
            decreases self.spans@.len() - i,
        {
            r.append(self.spans[i].content.as_str());
            i = i + 1;
            assert(self@.take(i as int).drop_last() =~= self@.take(i - 1));
        }
        assert(self@.take(self@.len() as int) =~= self@);
        r
    }
}

/// Append a run to a line under construction.
pub fn push_span(spans: &mut Vec<Span>, s: Span)
    ensures
        final(spans)@ == old(spans)@.push(s),
        span_views(final(spans)@) == span_views(old(spans)@).push(s@),
{
    spans.push(s);
    assert(span_views(spans@) =~= span_views(old(spans)@).push(s@));
}

/// Append a line to a block under construction.
pub fn push_line(lines: &mut Vec<Line>, l: Line)
    ensures
        final(lines)@ == old(lines)@.push(l),
        line_views(final(lines)@) == line_views(old(lines)@).push(l@),
{
    lines.push(l);
    assert(line_views(lines@) =~= line_views(old(lines)@).push(l@));
}

/// Append a block to a list under construction.
pub fn push_block(blocks: &mut Vec<Vec<Line>>, b: Vec<Line>)
    ensures
        final(blocks)@ == old(blocks)@.push(b),
        block_views(final(blocks)@) == block_views(old(blocks)@).push(line_views(b@)),
{
    blocks.push(b);
    assert(block_views(blocks@) =~= block_views(old(blocks)@).push(line_views(b@)));
}

/// Move all of `more` to the end of `lines`.
pub fn append_lines(lines: &mut Vec<Line>, more: &mut Vec<Line>)
    ensures
        final(lines)@ == old(lines)@ + old(more)@,
        line_views(final(lines)@) == line_views(old(lines)@) + line_views(old(more)@),
{
    lines.append(more);
    assert(line_views(lines@) =~= line_views(old(lines)@) + line_views(old(more)@));
}

/// An area of the terminal, in cells.
#[derive(Debug, Clone, Copy, PartialEq, Eq, Structural)]
pub struct Rect {
    pub x: u16,
    pub y: u16,
    pub width: u16,
    pub height: u16,
}

/// The text of a line is that of its spans, one behind the other.
pub proof fn law_line_text_is_that_of_its_spans(a: Seq<SpanView>, b: Seq<SpanView>, s: SpanView)
    ensures
        line_text(blank()).len() == 0,
        line_text(seq![s]) == s.content,
        line_text(a + b) == line_text(a) + line_text(b),
    decreases b.len(),
{
    reveal_with_fuel(line_text, 2);
    assert(seq![s].drop_last() =~= blank());
    assert(line_text(seq![s]) =~= s.content);
    if b.len() == 0 {
        assert(a + b =~= a);
        assert(line_text(a) + line_text(b) =~= line_text(a));
    } else {
        law_line_text_is_that_of_its_spans(a, b.drop_last(), s);
        assert((a + b).drop_last() =~= a + b.drop_last());
        assert(line_text(a + b) =~= line_text(a) + line_text(b));
    }
}

/// The least of two numbers is one of them and above neither; a difference is never
/// below nothing.
pub proof fn law_least_and_less(a: int, b: int)
    ensures
        least(a, b) <= a,
        least(a, b) <= b,
        least(a, b) == a || least(a, b) == b,
        less(a, b) >= 0,
        a >= b ==> less(a, b) + b == a,
        a <= b ==> less(a, b) == 0,
{
}

} // verus!
