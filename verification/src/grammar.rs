//! The markup grammar, stated over sequences of characters.
//!
//! A line is a level marker followed by up to three columns of styled spans.
//! Every function here reads a whole line `s` and a position in it, so that a
//! flaw can be reported where it stands.

use crate::model::{LineLevel, LineView, SpanView, TextStyle};
use crate::text::{
    is_blank, is_space, lemma_trim_hi_bounds, lemma_trim_lo_bounds, split, trim_lo, trimmed,
};
use vstd::prelude::*;

verus! {

/// The ways in which a line can be malformed.
#[derive(Debug, Clone, Copy, PartialEq, Eq, Structural)]
pub enum ErrorKind {
    /// The line does not begin with `===`, `==`, `=` or `-`.
    MissingLevelMarker,
    /// The columns begin with `<>`: a center column with no left column.
    CenterWithoutLeft,
    /// A `*` with no closing `*` after its text.
    UnclosedItalic,
    /// A `**` with no closing `**` after its text.
    UnclosedBold,
    /// A `***` with no closing `***` after its text.
    UnclosedBoldItalic,
    /// Style markers that enclose nothing but white space.
    EmptySpan,
    /// A column marker where no column can begin.
    MisplacedColumnMarker,
}

/// A flaw in a line: what is wrong, and the offset of the character at which
/// it was found.
pub struct Flaw {
    pub at: int,
    pub kind: ErrorKind,
}

/// Whether `s` holds `c` at position `p`.
pub open spec fn has_at(s: Seq<char>, p: int, c: char) -> bool {
    0 <= p < s.len() && s[p] == c
}

/// Whether `c` is one of the characters that begin a column marker.
pub open spec fn is_column_marker(c: char) -> bool {
    c == '<' || c == '>'
}

/// Whether `c` can stand in unstyled text.
pub open spec fn is_plain(c: char) -> bool {
    c != '*' && !is_column_marker(c)
}

/// The level marker at `p` and its length, the longest marker first.
pub open spec fn level_at(s: Seq<char>, p: int) -> Option<(LineLevel, int)> {
    if has_at(s, p, '=') {
        if has_at(s, p + 1, '=') {
            if has_at(s, p + 2, '=') {
                Some((LineLevel::Header1, 3))
            } else {
                Some((LineLevel::Header2, 2))
            }
        } else {
            Some((LineLevel::Header3, 1))
        }
    } else if has_at(s, p, '-') {
        Some((LineLevel::Text, 1))
    } else {
        None
    }
}

/// The length of the style marker that begins at the `*` at `p`: the number
/// of asterisks there, three at most.
pub open spec fn marker_len(s: Seq<char>, p: int) -> int {
    if has_at(s, p + 1, '*') {
        if has_at(s, p + 2, '*') {
            3
        } else {
            2
        }
    } else {
        1
    }
}

/// The style that a marker of `m` asterisks gives.
pub open spec fn marker_style(m: int) -> TextStyle {
    if m == 1 {
        TextStyle::Italic
    } else if m == 2 {
        TextStyle::Bold
    } else {
        TextStyle::BoldItalic
    }
}

/// The flaw of a marker of `m` asterisks that is never closed.
pub open spec fn unclosed(m: int) -> ErrorKind {
    if m == 1 {
        ErrorKind::UnclosedItalic
    } else if m == 2 {
        ErrorKind::UnclosedBold
    } else {
        ErrorKind::UnclosedBoldItalic
    }
}

/// Whether `c` can stand between two markers of `m` asterisks. No styled text
/// holds an asterisk, and italic text holds no column marker either.
pub open spec fn in_body(c: char, m: int) -> bool {
    c != '*' && (m == 1 ==> !is_column_marker(c))
}

/// The end of the longest stretch from `p` on that can stand between two
/// markers of `m` asterisks.
pub open spec fn body_end(s: Seq<char>, p: int, m: int) -> int
    decreases s.len() - p,
{
    if 0 <= p < s.len() && in_body(s[p], m) {
        body_end(s, p + 1, m)
    } else {
        p
    }
}

/// Whether `m` asterisks stand at `q`.
pub open spec fn closes(s: Seq<char>, q: int, m: int) -> bool {
    &&& has_at(s, q, '*')
    &&& m >= 2 ==> has_at(s, q + 1, '*')
    &&& m >= 3 ==> has_at(s, q + 2, '*')
}

/// The end of the longest stretch of unstyled text from `p` on.
pub open spec fn plain_end(s: Seq<char>, p: int) -> int
    decreases s.len() - p,
{
    if 0 <= p < s.len() && is_plain(s[p]) {
        plain_end(s, p + 1)
    } else {
        p
    }
}

/// What the tokenizer finds at one position.
pub enum Step {
    /// A span, and the position after it.
    Span { span: SpanView, next: int },
    /// Unstyled white space, which makes no span, and the position after it.
    Gap { next: int },
    /// A style marker that opens no well-formed span.
    Fail { flaw: Flaw },
}

/// The styled span that begins with the `*` at `p`. The marker is the
/// longest that the asterisks at `p` allow, the text runs as far as it can,
/// and a marker of the same length has to follow it.
pub open spec fn styled_at(s: Seq<char>, p: int) -> Step {
    let m = marker_len(s, p);
    let q = body_end(s, p + m, m);
    if !closes(s, q, m) {
        Step::Fail { flaw: Flaw { at: p, kind: unclosed(m) } }
    } else if is_blank(s, p + m, q) {
        Step::Fail { flaw: Flaw { at: p, kind: ErrorKind::EmptySpan } }
    } else {
        Step::Span {
            span: SpanView { text: trimmed(s, p + m, q), style: marker_style(m) },
            next: q + m,
        }
    }
}

/// The unstyled text that begins at `p`: a span of its trimmed characters,
/// or a gap where they are white space only.
pub open spec fn plain_at(s: Seq<char>, p: int) -> Step {
    let q = plain_end(s, p);
    if is_blank(s, p, q) {
        Step::Gap { next: q }
    } else {
        Step::Span { span: SpanView { text: trimmed(s, p, q), style: TextStyle::Normal }, next: q }
    }
}

/// What the tokenizer finds at `p`, where `p` holds no column marker.
pub open spec fn step_at(s: Seq<char>, p: int) -> Step {
    if has_at(s, p, '*') {
        styled_at(s, p)
    } else {
        plain_at(s, p)
    }
}

/// A sequence of spans and the position at which it ended.
pub struct Run {
    pub spans: Seq<SpanView>,
    pub end: int,
}

/// `run` with `first` put before its spans.
pub open spec fn after(first: Seq<SpanView>, run: Result<Run, Flaw>) -> Result<Run, Flaw> {
    match run {
        Ok(r) => Ok(Run { spans: first + r.spans, end: r.end }),
        Err(flaw) => Err(flaw),
    }
}

/// The spans from `p` up to the next column marker or the end of the line.
pub open spec fn spans_from(s: Seq<char>, p: int) -> Result<Run, Flaw>
    decreases s.len() - p,
{
    if !(0 <= p < s.len()) || is_column_marker(s[p]) {
        Ok(Run { spans: Seq::empty(), end: p })
    } else {
        proof {
            lemma_step_advances(s, p);
        }
        match step_at(s, p) {
            Step::Fail { flaw } => Err(flaw),
            Step::Gap { next } => spans_from(s, next),
            Step::Span { span, next } => after(seq![span], spans_from(s, next)),
        }
    }
}

/// A run with no spans that ends where it began.
pub open spec fn no_spans(p: int) -> Result<Run, Flaw> {
    Ok(Run { spans: Seq::empty(), end: p })
}

/// The center column that may follow the left column, which ended at `q`.
pub open spec fn center_after(s: Seq<char>, q: int) -> Result<Run, Flaw> {
    if has_at(s, q, '<') && has_at(s, q + 1, '>') {
        spans_from(s, q + 2)
    } else {
        no_spans(q)
    }
}

/// The right column that may follow the columns before it, which ended at `q`.
pub open spec fn right_after(s: Seq<char>, q: int) -> Result<Run, Flaw> {
    if has_at(s, q, '>') {
        spans_from(s, q + 1)
    } else {
        no_spans(q)
    }
}

/// Three columns of spans and the position at which they ended.
pub struct Columns {
    pub left: Seq<SpanView>,
    pub center: Seq<SpanView>,
    pub right: Seq<SpanView>,
    pub end: int,
}

/// The columns that begin with the left marker at `p`.
pub open spec fn left_form(s: Seq<char>, p: int) -> Result<Columns, Flaw> {
    match spans_from(s, p + 1) {
        Err(flaw) => Err(flaw),
        Ok(left) => match center_after(s, left.end) {
            Err(flaw) => Err(flaw),
            Ok(center) => match right_after(s, center.end) {
                Err(flaw) => Err(flaw),
                Ok(right) => Ok(
                    Columns {
                        left: left.spans,
                        center: center.spans,
                        right: right.spans,
                        end: right.end,
                    },
                ),
            },
        },
    }
}

/// The columns that begin with the right marker at `p`.
pub open spec fn right_form(s: Seq<char>, p: int) -> Result<Columns, Flaw> {
    match spans_from(s, p + 1) {
        Err(flaw) => Err(flaw),
        Ok(right) => Ok(
            Columns { left: Seq::empty(), center: Seq::empty(), right: right.spans, end: right.end },
        ),
    }
}

/// The columns of text that begins with no marker: all of it is the left column.
pub open spec fn bare_form(s: Seq<char>, p: int) -> Result<Columns, Flaw> {
    match spans_from(s, p) {
        Err(flaw) => Err(flaw),
        Ok(left) => Ok(
            Columns { left: left.spans, center: Seq::empty(), right: Seq::empty(), end: left.end },
        ),
    }
}

/// The columns that begin at `p`. The center marker `<>` is tried before the
/// left marker `<`, of which it is an extension, and a line that begins with
/// it is refused.
pub open spec fn columns_at(s: Seq<char>, p: int) -> Result<Columns, Flaw> {
    if has_at(s, p, '<') && has_at(s, p + 1, '>') {
        Err(Flaw { at: p, kind: ErrorKind::CenterWithoutLeft })
    } else if has_at(s, p, '<') {
        left_form(s, p)
    } else if has_at(s, p, '>') {
        right_form(s, p)
    } else {
        bare_form(s, p)
    }
}

/// The level of the line `s`, where it begins with a level marker.
pub open spec fn line_level(s: Seq<char>) -> Option<LineLevel> {
    match level_at(s, trim_lo(s, 0, s.len() as int)) {
        Some((level, _)) => Some(level),
        None => None,
    }
}

/// The position at which the columns of the line `s` begin: after the level
/// marker and the white space that follows it.
pub open spec fn columns_start(s: Seq<char>) -> int {
    let p = trim_lo(s, 0, s.len() as int);
    match level_at(s, p) {
        Some((_, n)) => trim_lo(s, p + n, s.len() as int),
        None => p,
    }
}

/// What one line of input is: nothing where it is blank, else a line of the
/// chart or the flaw that it has. White space before the level marker and
/// after it is passed over, and the columns have to reach the end of the line.
pub open spec fn line_outcome(s: Seq<char>) -> Result<Option<LineView>, Flaw> {
    let p = trim_lo(s, 0, s.len() as int);
    if p >= s.len() {
        Ok(None)
    } else {
        match level_at(s, p) {
            None => Err(Flaw { at: p, kind: ErrorKind::MissingLevelMarker }),
            Some((level, n)) => match columns_at(s, trim_lo(s, p + n, s.len() as int)) {
                Err(flaw) => Err(flaw),
                Ok(c) => if c.end < s.len() {
                    Err(Flaw { at: c.end, kind: ErrorKind::MisplacedColumnMarker })
                } else {
                    Ok(Some(LineView { level, left: c.left, center: c.center, right: c.right }))
                },
            },
        }
    }
}

/// The lines of `s`: what its line breaks separate. A text of `n` line
/// breaks has `n + 1` lines.
pub open spec fn split_lines(s: Seq<char>) -> Seq<Seq<char>> {
    split(s, '\n')
}

/// A flaw in a text: the number of its line and of its column, both counted
/// from one, and what is wrong.
pub struct LineFlaw {
    pub line: int,
    pub column: int,
    pub kind: ErrorKind,
}

/// The chart lines that the first `n` lines of input give, in order.
pub open spec fn parsed_upto(lines: Seq<Seq<char>>, n: int) -> Seq<LineView>
    decreases n,
{
    if n <= 0 || n > lines.len() {
        Seq::empty()
    } else {
        match line_outcome(lines[n - 1]) {
            Ok(Some(line)) => parsed_upto(lines, n - 1).push(line),
            _ => parsed_upto(lines, n - 1),
        }
    }
}

/// The flaws of the first `n` lines of input, in order.
pub open spec fn flaws_upto(lines: Seq<Seq<char>>, n: int) -> Seq<LineFlaw>
    decreases n,
{
    if n <= 0 || n > lines.len() {
        Seq::empty()
    } else {
        match line_outcome(lines[n - 1]) {
            Err(flaw) => flaws_upto(lines, n - 1).push(
                LineFlaw { line: n, column: flaw.at + 1, kind: flaw.kind },
            ),
            _ => flaws_upto(lines, n - 1),
        }
    }
}

/// What a text is: the lines of a chart where every line of it is well
/// formed, else all the flaws of all its lines.
pub open spec fn document(text: Seq<char>) -> Result<Seq<LineView>, Seq<LineFlaw>> {
    let lines = split_lines(text);
    let flaws = flaws_upto(lines, lines.len() as int);
    if flaws.len() == 0 {
        Ok(parsed_upto(lines, lines.len() as int))
    } else {
        Err(flaws)
    }
}

/// The text between two markers ends within the line, holds only what may
/// stand there, and stops at the first character that may not.
pub proof fn lemma_body_end(s: Seq<char>, p: int, m: int)
    requires
        0 <= p <= s.len(),
    ensures
        p <= body_end(s, p, m) <= s.len(),
        forall|i: int| p <= i < body_end(s, p, m) ==> in_body(#[trigger] s[i], m),
        body_end(s, p, m) < s.len() ==> !in_body(s[body_end(s, p, m)], m),
    decreases s.len() - p,
{
    if p < s.len() && in_body(s[p], m) {
        lemma_body_end(s, p + 1, m);
    }
}

/// Unstyled text ends within the line, holds no marker, and stops at the
/// first marker.
pub proof fn lemma_plain_end(s: Seq<char>, p: int)
    requires
        0 <= p <= s.len(),
    ensures
        p <= plain_end(s, p) <= s.len(),
        forall|i: int| p <= i < plain_end(s, p) ==> is_plain(#[trigger] s[i]),
        plain_end(s, p) < s.len() ==> !is_plain(s[plain_end(s, p)]),
    decreases s.len() - p,
{
    if p < s.len() && is_plain(s[p]) {
        lemma_plain_end(s, p + 1);
    }
}

/// Every step of the tokenizer that does not fail ends after the position
/// at which it began, and within the line.
pub proof fn lemma_step_advances(s: Seq<char>, p: int)
    requires
        0 <= p < s.len(),
        !is_column_marker(s[p]),
    ensures
        match step_at(s, p) {
            Step::Fail { flaw } => flaw.at == p,
            Step::Gap { next } => p < next <= s.len(),
            Step::Span { span, next } => p < next <= s.len() && span.text.len() > 0,
        },
{
    if has_at(s, p, '*') {
        let m = marker_len(s, p);
        lemma_body_end(s, p + m, m);
        let q = body_end(s, p + m, m);
        if closes(s, q, m) && !is_blank(s, p + m, q) {
            lemma_trim_lo_bounds(s, p + m, q);
            lemma_trim_hi_bounds(s, trim_lo(s, p + m, q), q);
        }
    } else {
        lemma_plain_end(s, p + 1);
        let q = plain_end(s, p);
        if !is_blank(s, p, q) {
            lemma_trim_lo_bounds(s, p, q);
            lemma_trim_hi_bounds(s, trim_lo(s, p, q), q);
        }
    }
}

/// Whether a span is as the tokenizer makes them: its text is not empty
/// and neither begins nor ends with white space.
pub open spec fn well_formed(span: SpanView) -> bool {
    &&& span.text.len() > 0
    &&& !is_space(span.text[0])
    &&& !is_space(span.text[span.text.len() - 1])
}

/// Whether every span of `spans` is well formed.
pub open spec fn all_well_formed(spans: Seq<SpanView>) -> bool {
    forall|i: int| 0 <= i < spans.len() ==> well_formed(#[trigger] spans[i])
}

/// The trimmed text of a stretch that is not blank is not empty and
/// neither begins nor ends with white space.
pub proof fn lemma_trimmed_well_formed(s: Seq<char>, from: int, to: int, style: TextStyle)
    requires
        0 <= from <= to <= s.len(),
        !is_blank(s, from, to),
    ensures
        well_formed(SpanView { text: trimmed(s, from, to), style }),
{
    lemma_trim_lo_bounds(s, from, to);
    lemma_trim_hi_bounds(s, trim_lo(s, from, to), to);
}

/// A span that the tokenizer makes is well formed.
pub proof fn lemma_step_well_formed(s: Seq<char>, p: int)
    requires
        0 <= p < s.len(),
        !is_column_marker(s[p]),
    ensures
        step_at(s, p) matches Step::Span { span, next } ==> well_formed(span),
{
    if has_at(s, p, '*') {
        let m = marker_len(s, p);
        lemma_body_end(s, p + m, m);
        let q = body_end(s, p + m, m);
        if closes(s, q, m) && !is_blank(s, p + m, q) {
            lemma_trimmed_well_formed(s, p + m, q, marker_style(m));
        }
    } else {
        lemma_plain_end(s, p + 1);
        let q = plain_end(s, p);
        if !is_blank(s, p, q) {
            lemma_trimmed_well_formed(s, p, q, TextStyle::Normal);
        }
    }
}

/// A run of spans ends within the line, at a column marker or at the end of
/// the line, and holds well-formed spans only. Where there is none, the flaw
/// is a style marker within the line.
pub proof fn lemma_spans_from(s: Seq<char>, p: int)
    requires
        0 <= p <= s.len(),
    ensures
        match spans_from(s, p) {
            Ok(run) => {
                &&& p <= run.end <= s.len()
                &&& run.end < s.len() ==> is_column_marker(s[run.end])
                &&& all_well_formed(run.spans)
            },
            Err(flaw) => p <= flaw.at < s.len() && s[flaw.at] == '*',
        },
    decreases s.len() - p,
{
    if p < s.len() && !is_column_marker(s[p]) {
        lemma_step_advances(s, p);
        lemma_step_well_formed(s, p);
        match step_at(s, p) {
            Step::Fail { flaw } => {},
            Step::Gap { next } => {
                lemma_spans_from(s, next);
            },
            Step::Span { span, next } => {
                lemma_spans_from(s, next);
            },
        }
    }
}

/// Columns end within the line, at a column marker or at the end of the
/// line, and hold well-formed spans only. Where there are none, the flaw
/// lies within the line.
pub proof fn lemma_columns_at(s: Seq<char>, p: int)
    requires
        0 <= p <= s.len(),
    ensures
        match columns_at(s, p) {
            Ok(c) => {
                &&& p <= c.end <= s.len()
                &&& c.end < s.len() ==> is_column_marker(s[c.end])
                &&& all_well_formed(c.left)
                &&& all_well_formed(c.center)
                &&& all_well_formed(c.right)
            },
            Err(flaw) => p <= flaw.at < s.len(),
        },
{
    if has_at(s, p, '<') && has_at(s, p + 1, '>') {
    } else if has_at(s, p, '<') {
        lemma_spans_from(s, p + 1);
        if let Ok(left) = spans_from(s, p + 1) {
            if has_at(s, left.end, '<') && has_at(s, left.end + 1, '>') {
                lemma_spans_from(s, left.end + 2);
            }
            if let Ok(center) = center_after(s, left.end) {
                if has_at(s, center.end, '>') {
                    lemma_spans_from(s, center.end + 1);
                }
            }
        }
    } else if has_at(s, p, '>') {
        lemma_spans_from(s, p + 1);
    } else {
        lemma_spans_from(s, p);
    }
}

/// Whether every span of `line` is well formed.
pub open spec fn line_well_formed(line: LineView) -> bool {
    &&& all_well_formed(line.left)
    &&& all_well_formed(line.center)
    &&& all_well_formed(line.right)
}

/// The flaw of a line lies within the line, and the line that a line of
/// input stands for holds well-formed spans only.
pub proof fn lemma_line_outcome(s: Seq<char>)
    ensures
        match line_outcome(s) {
            Err(flaw) => 0 <= flaw.at < s.len(),
            Ok(Some(line)) => line_well_formed(line),
            Ok(None) => is_blank(s, 0, s.len() as int),
        },
{
    lemma_trim_lo_bounds(s, 0, s.len() as int);
    let p = trim_lo(s, 0, s.len() as int);
    if p < s.len() {
        match level_at(s, p) {
            None => {},
            Some((level, n)) => {
                lemma_trim_lo_bounds(s, p + n, s.len() as int);
                lemma_columns_at(s, trim_lo(s, p + n, s.len() as int));
            },
        }
    }
}

} // verus!
