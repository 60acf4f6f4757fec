//! The document model of a chart: lines in three columns of styled text.

use vstd::prelude::*;

verus! {

/// How a span of text is set.
#[derive(Debug, Clone, Copy, PartialEq, Eq, Structural)]
pub enum TextStyle {
    /// Unstyled text.
    Normal,
    /// Bold text.
    Bold,
    /// Italic text.
    Italic,
    /// Bold and italic text.
    BoldItalic,
}

/// The tier of a line in the chart's hierarchy.
#[derive(Debug, Clone, Copy, PartialEq, Eq, Structural)]
pub enum LineLevel {
    /// A major section.
    Header1,
    /// A subsection.
    Header2,
    /// A detail heading.
    Header3,
    /// A line of text, such as a stage direction or a comment.
    Text,
}

/// A run of text in one style.
#[derive(Debug, Clone, PartialEq, Eq)]
pub struct TextSpan {
    pub text: String,
    pub style: TextStyle,
}

/// What a `TextSpan` stands for: its characters and its style.
pub struct SpanView {
    pub text: Seq<char>,
    pub style: TextStyle,
}

impl View for TextSpan {
    type V = SpanView;

    open spec fn view(&self) -> SpanView {
        SpanView { text: self.text@, style: self.style }
    }
}

/// The views of a column's spans, in order.
pub open spec fn spans_view(spans: Seq<TextSpan>) -> Seq<SpanView> {
    Seq::new(spans.len(), |i: int| spans[i]@)
}

impl TextSpan {
    /// A span of `text` in the given style.
    pub fn new(text: &str, style: TextStyle) -> (span: TextSpan)
        ensures
            span@ == (SpanView { text: text@, style }),
    {
        TextSpan { text: text.to_owned(), style }
    }

    /// A span of unstyled `text`.
    pub fn plain(text: &str) -> (span: TextSpan)
        ensures
            span@ == (SpanView { text: text@, style: TextStyle::Normal }),
    {
        TextSpan { text: text.to_owned(), style: TextStyle::Normal }
    }
}

/// One line of a chart: a level and three columns of spans.
#[derive(Debug, Clone, PartialEq, Eq)]
pub struct Line {
    pub level: LineLevel,
    pub left: Vec<TextSpan>,
    pub center: Vec<TextSpan>,
    pub right: Vec<TextSpan>,
}

/// What a `Line` stands for.
pub struct LineView {
    pub level: LineLevel,
    pub left: Seq<SpanView>,
    pub center: Seq<SpanView>,
    pub right: Seq<SpanView>,
}

impl View for Line {
    type V = LineView;

    open spec fn view(&self) -> LineView {
        LineView {
            level: self.level,
            left: spans_view(self.left@),
            center: spans_view(self.center@),
            right: spans_view(self.right@),
        }
    }
}

/// The views of a chart's lines, in order.
pub open spec fn lines_view(lines: Seq<Line>) -> Seq<LineView> {
    Seq::new(lines.len(), |i: int| lines[i]@)
}

impl Line {
    /// A line of the given level with the given columns.
    pub fn new(level: LineLevel, left: Vec<TextSpan>, center: Vec<TextSpan>, right: Vec<TextSpan>) -> (line: Line)
        ensures
            line.level == level,
            line.left == left,
            line.center == center,
            line.right == right,
    {
        Line { level, left, center, right }
    }

    /// A line with one unstyled span in each column.
    pub fn plain_text(level: LineLevel, left: &str, center: &str, right: &str) -> (line: Line)
        ensures
            line@ == (LineView {
                level,
                left: seq![SpanView { text: left@, style: TextStyle::Normal }],
                center: seq![SpanView { text: center@, style: TextStyle::Normal }],
                right: seq![SpanView { text: right@, style: TextStyle::Normal }],
            }),
    {
        let mut l: Vec<TextSpan> = Vec::new();
        l.push(TextSpan::plain(left));
        let mut c: Vec<TextSpan> = Vec::new();
        c.push(TextSpan::plain(center));
        let mut r: Vec<TextSpan> = Vec::new();
        r.push(TextSpan::plain(right));
        let line = Line { level, left: l, center: c, right: r };
        assert(line@.left =~= seq![SpanView { text: left@, style: TextStyle::Normal }]);
        assert(line@.center =~= seq![SpanView { text: center@, style: TextStyle::Normal }]);
        assert(line@.right =~= seq![SpanView { text: right@, style: TextStyle::Normal }]);
        line
    }
}

/// A whole chart: its lines from top to bottom.
#[derive(Debug, Clone, PartialEq)]
pub struct Chart {
    pub lines: Vec<Line>,
}

impl View for Chart {
    type V = Seq<LineView>;

    open spec fn view(&self) -> Seq<LineView> {
        lines_view(self.lines@)
    }
}

impl Chart {
    /// The chart made of `lines`.
    pub fn new(lines: Vec<Line>) -> (chart: Chart)
        ensures
            chart.lines == lines,
    {
        Chart { lines }
    }
}

} // verus!
