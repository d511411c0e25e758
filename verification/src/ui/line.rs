//! Lines of styled text.

use vstd::prelude::*;
use vstd::string::*;

use crate::text::joined;
use crate::ui::theme::{plain, Style};

verus! {

/// A piece of text in one style.
#[derive(Debug, Eq, PartialEq)]
pub struct Span {
    pub content: String,
    pub style: Style,
}

/// What a [`Span`] says.
#[verifier::ext_equal]
pub struct SpanView {
    pub content: Seq<char>,
    pub style: Style,
}

impl View for Span {
    type V = SpanView;

    open spec fn view(&self) -> SpanView {
        SpanView { content: self.content@, style: self.style }
    }
}

impl Clone for Span {
    fn clone(&self) -> (copy: Self)
        ensures
            copy == *self,
    {
        Span { content: self.content.clone(), style: self.style }
    }
}

/// Text in a style.
pub open spec fn styled_span(content: Seq<char>, style: Style) -> SpanView {
    SpanView { content, style }
}

/// Text in no style of its own.
pub open spec fn raw_span(content: Seq<char>) -> SpanView {
    SpanView { content, style: plain() }
}

impl Span {
    pub fn styled(content: String, style: Style) -> (span: Self)
        ensures
            span@ == styled_span(content@, style),
    {
        Span { content, style }
    }

    pub fn raw(content: String) -> (span: Self)
        ensures
            span@ == raw_span(content@),
    {
        Span { content, style: Style::new() }
    }
}

/// Where a line stands within its row.
#[derive(Clone, Copy, Debug, Eq, PartialEq, Structural)]
pub enum Alignment {
    Left,
    Center,
    Right,
}

/// A line of styled text.
#[derive(Debug, Eq, PartialEq)]
pub struct Line {
    pub style: Style,
    pub alignment: Option<Alignment>,
    pub spans: Vec<Span>,
}

/// What a [`Line`] says.
#[verifier::ext_equal]
pub struct LineView {
    pub style: Style,
    pub alignment: Option<Alignment>,
    pub spans: Seq<SpanView>,
}

/// What the spans of a list say.
pub open spec fn span_views(spans: Seq<Span>) -> Seq<SpanView> {
    spans.map_values(|span: Span| span@)
}

impl View for Line {
    type V = LineView;

    open spec fn view(&self) -> LineView {
        LineView { style: self.style, alignment: self.alignment, spans: span_views(self.spans@) }
    }
}

impl Clone for Line {
    fn clone(&self) -> (copy: Self)
        ensures
            copy@ == self@,
    {
        let mut spans: Vec<Span> = Vec::new();
        let mut index: usize = 0;
        while index < self.spans.len()
            invariant
                index <= self.spans.len(),
                spans.len() == index,
                forall|i: int| 0 <= i < index ==> (#[trigger] spans@[i]) == self.spans@[i],
            decreases self.spans.len() - index,
        {
            spans.push(self.spans[index].clone());
            index = index + 1;
        }
        assert(span_views(spans@) =~= span_views(self.spans@));
        Line { style: self.style, alignment: self.alignment, spans }
    }
}

/// What the lines of a list say.
pub open spec fn line_views(lines: Seq<Line>) -> Seq<LineView> {
    lines.map_values(|line: Line| line@)
}

/// A line of spans.
pub open spec fn line_of(spans: Seq<SpanView>) -> LineView {
    LineView { style: plain(), alignment: None, spans }
}

/// A line of text in no style of its own.
pub open spec fn raw_line(content: Seq<char>) -> LineView {
    line_of(seq![raw_span(content)])
}

/// A line of text in a style.
pub open spec fn styled_line(content: Seq<char>, style: Style) -> LineView {
    line_of(seq![styled_span(content, style)])
}

/// A line in a style, of text in no style of its own.
pub open spec fn line_in_style(content: Seq<char>, style: Style) -> LineView {
    LineView { style, alignment: None, spans: seq![raw_span(content)] }
}

/// The texts of spans.
pub open spec fn contents(spans: Seq<SpanView>) -> Seq<Seq<char>> {
    spans.map_values(|span: SpanView| span.content)
}

/// The text of a line.
pub open spec fn text_of_line(line: LineView) -> Seq<char> {
    joined(contents(line.spans))
}

impl Line {
    pub fn from_spans(spans: Vec<Span>) -> (line: Self)
        ensures
            line@ == line_of(span_views(spans@)),
    {
        Line { style: Style::new(), alignment: None, spans }
    }

    pub fn from_text(content: String) -> (line: Self)
        ensures
            line@ == raw_line(content@),
    {
        let spans = vec![Span::raw(content)];
        assert(span_views(spans@) =~= seq![raw_span(content@)]);
        Line::from_spans(spans)
    }

    pub fn from_styled(content: String, style: Style) -> (line: Self)
        ensures
            line@ == styled_line(content@, style),
    {
        let spans = vec![Span::styled(content, style)];
        assert(span_views(spans@) =~= seq![styled_span(content@, style)]);
        Line::from_spans(spans)
    }

    /// A line in a style, of text in no style of its own.
    pub fn in_style(content: String, style: Style) -> (line: Self)
        ensures
            line@ == line_in_style(content@, style),
    {
        let spans = vec![Span::raw(content)];
        assert(span_views(spans@) =~= seq![raw_span(content@)]);
        Line { style, alignment: None, spans }
    }

    /// The text of the line.
    pub fn text(&self) -> (text: String)
        ensures
            text@ == text_of_line(self@),
    {
        let mut text = String::new();
        let mut index: usize = 0;
        let ghost all = contents(self@.spans);
        assert(all.take(0) =~= Seq::<Seq<char>>::empty());
        while index < self.spans.len()
            invariant
                index <= self.spans.len(),
                all == contents(self@.spans),
                text@ == joined(all.take(index as int)),
            decreases self.spans.len() - index,
        {
            text.append(self.spans[index].content.as_str());
            index = index + 1;
            assert(all.take(index as int).drop_last() =~= all.take(index - 1));
            assert(all.take(index as int).last() == self.spans@[index - 1].content@);
        }
        assert(all.take(all.len() as int) =~= all);
        text
    }
}

} // verus!
