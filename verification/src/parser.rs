//! The parser of chart markup: from text to a `Chart`, or to the list of
//! everything that is wrong with the text.

use crate::grammar::{
    after, body_end, closes, columns_at, document, flaws_upto, has_at, lemma_line_outcome,
    lemma_step_advances, level_at, line_outcome, marker_len, marker_style, parsed_upto, plain_at,
    plain_end, spans_from, split_lines, step_at, styled_at, unclosed, Columns, ErrorKind, Flaw,
    LineFlaw, Run, Step,
};
use crate::model::{
    lines_view, spans_view, Chart, Line, LineLevel, LineView, SpanView, TextSpan, TextStyle,
};
use crate::text::{chars_of, decimal, push_decimal, rows_view, split_at, string_of, trim_bounds};
use vstd::prelude::*;
use vstd::string::StringExecFns;

verus! {

/// A flaw found in a line, with the offset in the line of the character at
/// which it was found.
#[derive(Debug, Clone, Copy, PartialEq, Eq)]
pub struct Fault {
    pub offset: usize,
    pub kind: ErrorKind,
}

impl View for Fault {
    type V = Flaw;

    open spec fn view(&self) -> Flaw {
        Flaw { at: self.offset as int, kind: self.kind }
    }
}

/// Whether a result of the tokenizer is the step that the grammar gives.
pub open spec fn is_step(r: Result<(Option<TextSpan>, usize), Fault>, step: Step) -> bool {
    match step {
        Step::Fail { flaw } => r matches Err(f) && f@ == flaw,
        Step::Gap { next } => r matches Ok((None, n)) && n == next,
        Step::Span { span, next } => r matches Ok((Some(sp), n)) && sp@ == span && n == next,
    }
}

/// Whether a result of reading spans is the run that the grammar gives.
pub open spec fn is_run(r: Result<(Vec<TextSpan>, usize), Fault>, run: Result<Run, Flaw>) -> bool {
    match run {
        Err(flaw) => r matches Err(f) && f@ == flaw,
        Ok(run) => r matches Ok((spans, end)) && spans_view(spans@) == run.spans && end == run.end,
    }
}

/// The columns of a line as the parser hands them on.
pub struct ColumnSet {
    pub left: Vec<TextSpan>,
    pub center: Vec<TextSpan>,
    pub right: Vec<TextSpan>,
    pub end: usize,
}

impl View for ColumnSet {
    type V = Columns;

    open spec fn view(&self) -> Columns {
        Columns {
            left: spans_view(self.left@),
            center: spans_view(self.center@),
            right: spans_view(self.right@),
            end: self.end as int,
        }
    }
}

/// Whether a result of reading columns is what the grammar gives.
pub open spec fn is_columns(r: Result<ColumnSet, Fault>, columns: Result<Columns, Flaw>) -> bool {
    match columns {
        Err(flaw) => r matches Err(f) && f@ == flaw,
        Ok(c) => r matches Ok(set) && set@ == c,
    }
}

/// Whether a result of reading a line is what the grammar gives.
pub open spec fn is_outcome(r: Result<Option<Line>, Fault>, outcome: Result<Option<LineView>, Flaw>) -> bool {
    match outcome {
        Err(flaw) => r matches Err(f) && f@ == flaw,
        Ok(None) => r matches Ok(None),
        Ok(Some(line)) => r matches Ok(Some(l)) && l@ == line,
    }
}

fn holds(v: &Vec<char>, p: usize, c: char) -> (b: bool)
    ensures
        b == has_at(v@, p as int, c),
        b ==> p < v.len(),
{
    p < v.len() && v[p] == c
}

fn marker_length(v: &Vec<char>, p: usize) -> (m: usize)
    requires
        p < v.len(),
    ensures
        m == marker_len(v@, p as int),
        1 <= m <= 3,
        has_at(v@, p as int, '*') ==> p + m <= v.len(),
{
    if holds(v, p + 1, '*') {
        if holds(v, p + 2, '*') {
            3
        } else {
            2
        }
    } else {
        1
    }
}

fn style_for(m: usize) -> (style: TextStyle)
    ensures
        style == marker_style(m as int),
{
    if m == 1 {
        TextStyle::Italic
    } else if m == 2 {
        TextStyle::Bold
    } else {
        TextStyle::BoldItalic
    }
}

fn unclosed_kind(m: usize) -> (kind: ErrorKind)
    ensures
        kind == unclosed(m as int),
{
    if m == 1 {
        ErrorKind::UnclosedItalic
    } else if m == 2 {
        ErrorKind::UnclosedBold
    } else {
        ErrorKind::UnclosedBoldItalic
    }
}

fn closes_at(v: &Vec<char>, q: usize, m: usize) -> (b: bool)
    requires
        q <= v.len(),
        1 <= m <= 3,
    ensures
        b == closes(v@, q as int, m as int),
{
    if !holds(v, q, '*') {
        false
    } else if m == 1 {
        true
    } else if !holds(v, q + 1, '*') {
        false
    } else if m == 2 {
        true
    } else {
        holds(v, q + 2, '*')
    }
}

/// Reads the styled span that begins with the `*` at `p`.
fn styled_span(v: &Vec<char>, p: usize) -> (r: Result<(Option<TextSpan>, usize), Fault>)
    requires
        p < v.len(),
        v[p as int] == '*',
    ensures
        is_step(r, styled_at(v@, p as int)),
{
    let m = marker_length(v, p);
    let start = p + m;
    let mut q: usize = start;
    while q < v.len() && v[q] != '*' && (m != 1 || (v[q] != '<' && v[q] != '>'))
        invariant
            start <= q <= v.len(),
            body_end(v@, start as int, m as int) == body_end(v@, q as int, m as int),
        decreases v.len() - q,
    {
        q += 1;
    }
    if !closes_at(v, q, m) {
        return Err(Fault { offset: p, kind: unclosed_kind(m) });
    }
    let (lo, hi) = trim_bounds(v, start, q);
    if lo >= q {
        return Err(Fault { offset: p, kind: ErrorKind::EmptySpan });
    }
    let span = TextSpan { text: string_of(v, lo, hi), style: style_for(m) };
    Ok((Some(span), q + m))
}

/// Reads the unstyled text that begins at `p`.
fn plain_span(v: &Vec<char>, p: usize) -> (r: Result<(Option<TextSpan>, usize), Fault>)
    ensures
        is_step(r, plain_at(v@, p as int)),
{
    if p >= v.len() {
        return Ok((None, p));
    }
    let mut q: usize = p;
    while q < v.len() && v[q] != '*' && v[q] != '<' && v[q] != '>'
        invariant
            p <= q <= v.len(),
            plain_end(v@, p as int) == plain_end(v@, q as int),
        decreases v.len() - q,
    {
        q += 1;
    }
    let (lo, hi) = trim_bounds(v, p, q);
    if lo >= q {
        return Ok((None, q));
    }
    let span = TextSpan { text: string_of(v, lo, hi), style: TextStyle::Normal };
    Ok((Some(span), q))
}

/// Reads what stands at `p`: a styled span where an asterisk stands there,
/// else unstyled text. The result is the span and the position after it; no
/// span where the text is white space only; or the flaw of a style marker
/// that opens no span.
pub fn parse_span(v: &Vec<char>, p: usize) -> (r: Result<(Option<TextSpan>, usize), Fault>)
    ensures
        is_step(r, step_at(v@, p as int)),
{
    if holds(v, p, '*') {
        styled_span(v, p)
    } else {
        plain_span(v, p)
    }
}

/// Reads the spans from `p` up to the next column marker or the end of the
/// line.
pub fn parse_spans(v: &Vec<char>, p: usize) -> (r: Result<(Vec<TextSpan>, usize), Fault>)
    ensures
        is_run(r, spans_from(v@, p as int)),
{
    let mut spans: Vec<TextSpan> = Vec::new();
    let mut q: usize = p;
    while q < v.len() && v[q] != '<' && v[q] != '>'
        invariant
            spans_from(v@, p as int) == after(spans_view(spans@), spans_from(v@, q as int)),
        decreases v.len() - q,
    {
        proof {
            lemma_step_advances(v@, q as int);
        }
        let ghost before = spans_view(spans@);
        match parse_span(v, q) {
            Err(fault) => {
                return Err(fault);
            },
            Ok((None, next)) => {
                q = next;
            },
            Ok((Some(span), next)) => {
                proof {
                    let rest = spans_from(v@, next as int);
                    assert(spans_view(spans@.push(span)) =~= before + seq![span@]);
                    match rest {
                        Ok(run) => {
                            assert(before + (seq![span@] + run.spans) =~= (before + seq![
                                span@,
                            ]) + run.spans);
                        },
                        Err(_) => {},
                    }
                }
                spans.push(span);
                q = next;
            },
        }
    }
    proof {
        assert(spans_view(spans@) + Seq::<SpanView>::empty() =~= spans_view(spans@));
    }
    Ok((spans, q))
}

/// Reads the columns that begin at `p`: the center marker is looked for
/// before the left marker, then the right marker, then text with no marker.
pub fn parse_columns(v: &Vec<char>, p: usize) -> (r: Result<ColumnSet, Fault>)
    ensures
        is_columns(r, columns_at(v@, p as int)),
{
    if holds(v, p, '<') && holds(v, p + 1, '>') {
        return Err(Fault { offset: p, kind: ErrorKind::CenterWithoutLeft });
    }
    if holds(v, p, '<') {
        let (left, q) = match parse_spans(v, p + 1) {
            Err(fault) => {
                return Err(fault);
            },
            Ok(run) => run,
        };
        let (center, q) = if holds(v, q, '<') && holds(v, q + 1, '>') {
            match parse_spans(v, q + 2) {
                Err(fault) => {
                    return Err(fault);
                },
                Ok(run) => run,
            }
        } else {
            (Vec::new(), q)
        };
        let (right, q) = if holds(v, q, '>') {
            match parse_spans(v, q + 1) {
                Err(fault) => {
                    return Err(fault);
                },
                Ok(run) => run,
            }
        } else {
            (Vec::new(), q)
        };
        proof {
            assert(spans_view(Seq::<TextSpan>::empty()) =~= Seq::<SpanView>::empty());
        }
        Ok(ColumnSet { left, center, right, end: q })
    } else if holds(v, p, '>') {
        match parse_spans(v, p + 1) {
            Err(fault) => Err(fault),
            Ok((right, q)) => {
                proof {
                    assert(spans_view(Seq::<TextSpan>::empty()) =~= Seq::<SpanView>::empty());
                }
                Ok(ColumnSet { left: Vec::new(), center: Vec::new(), right, end: q })
            },
        }
    } else {
        match parse_spans(v, p) {
            Err(fault) => Err(fault),
            Ok((left, q)) => {
                proof {
                    assert(spans_view(Seq::<TextSpan>::empty()) =~= Seq::<SpanView>::empty());
                }
                Ok(ColumnSet { left, center: Vec::new(), right: Vec::new(), end: q })
            },
        }
    }
}

/// Reads the level marker at `p`, the longest marker first.
pub fn parse_level(v: &Vec<char>, p: usize) -> (r: Option<(LineLevel, usize)>)
    ensures
        match level_at(v@, p as int) {
            None => r is None,
            Some((level, n)) => r == Some((level, n as usize)) && p + n <= v.len(),
        },
{
    if holds(v, p, '=') {
        if holds(v, p + 1, '=') {
            if holds(v, p + 2, '=') {
                Some((LineLevel::Header1, 3))
            } else {
                Some((LineLevel::Header2, 2))
            }
        } else {
            Some((LineLevel::Header3, 1))
        }
    } else if holds(v, p, '-') {
        Some((LineLevel::Text, 1))
    } else {
        None
    }
}

/// Reads one line of input: `None` where it is blank, else the line of the
/// chart that it stands for, or its flaw. The caller has cut the text at its
/// line breaks; a line break that is left in `v` counts as white space.
pub fn parse_line(v: &Vec<char>) -> (r: Result<Option<Line>, Fault>)
    ensures
        is_outcome(r, line_outcome(v@)),
{
    let (p, _) = trim_bounds(v, 0, v.len());
    if p >= v.len() {
        return Ok(None);
    }
    match parse_level(v, p) {
        None => Err(Fault { offset: p, kind: ErrorKind::MissingLevelMarker }),
        Some((level, n)) => {
            let (start, _) = trim_bounds(v, p + n, v.len());
            match parse_columns(v, start) {
                Err(fault) => Err(fault),
                Ok(set) => {
                    if set.end < v.len() {
                        Err(Fault { offset: set.end, kind: ErrorKind::MisplacedColumnMarker })
                    } else {
                        Ok(Some(Line { level, left: set.left, center: set.center, right: set.right }))
                    }
                },
            }
        },
    }
}

/// A flaw in a text: its line and its column, both counted from one, and
/// what is wrong there.
#[derive(Debug, Clone, Copy, PartialEq, Eq)]
pub struct LineError {
    pub line: usize,
    pub column: usize,
    pub kind: ErrorKind,
}

impl View for LineError {
    type V = LineFlaw;

    open spec fn view(&self) -> LineFlaw {
        LineFlaw { line: self.line as int, column: self.column as int, kind: self.kind }
    }
}

/// The views of `errors`, in order.
pub open spec fn errors_view(errors: Seq<LineError>) -> Seq<LineFlaw> {
    Seq::new(errors.len(), |i: int| errors[i]@)
}

/// Reads a whole text. Blank lines are passed over. Where every other line
/// is well formed the result is the chart of those lines, in their order;
/// else it is the list of the flaws of all lines, in their order.
pub fn parse_document(input: &str) -> (r: Result<Chart, Vec<LineError>>)
    ensures
        match document(input@) {
            Ok(lines) => r matches Ok(chart) && chart@ == lines,
            Err(flaws) => r matches Err(errors) && errors_view(errors@) == flaws,
        },
{
    let text = chars_of(input);
    let rows = split_at(&text, '\n');
    let mut lines: Vec<Line> = Vec::new();
    let mut errors: Vec<LineError> = Vec::new();
    let mut i: usize = 0;
    while i < rows.len()
        invariant
            i <= rows.len(),
            rows_view(rows@) == split_lines(input@),
            lines_view(lines@) == parsed_upto(split_lines(input@), i as int),
            errors_view(errors@) == flaws_upto(split_lines(input@), i as int),
        decreases rows.len() - i,
    {
        let ghost row = rows_view(rows@)[i as int];
        assert(row == rows[i as int]@);
        match parse_line(&rows[i]) {
            Ok(None) => {},
            Ok(Some(line)) => {
                proof {
                    assert(lines_view(lines@.push(line)) =~= lines_view(lines@).push(line@));
                }
                lines.push(line);
            },
            Err(fault) => {
                proof {
                    lemma_line_outcome(row);
                }
                let error = LineError { line: i + 1, column: fault.offset + 1, kind: fault.kind };
                proof {
                    assert(errors_view(errors@.push(error)) =~= errors_view(errors@).push(error@));
                }
                errors.push(error);
            },
        }
        i += 1;
    }
    if errors.len() == 0 {
        Ok(Chart { lines })
    } else {
        Err(errors)
    }
}

/// What is said of a flaw of each kind.
pub open spec fn describe(kind: ErrorKind) -> Seq<char> {
    match kind {
        ErrorKind::MissingLevelMarker => "missing level marker: expected '===', '==', '=' or '-'"@,
        ErrorKind::CenterWithoutLeft => "center column without left marker"@,
        ErrorKind::UnclosedItalic => "unclosed italic marker '*'"@,
        ErrorKind::UnclosedBold => "unclosed bold marker '**'"@,
        ErrorKind::UnclosedBoldItalic => "unclosed bold-italic marker '***'"@,
        ErrorKind::EmptySpan => "empty styled span"@,
        ErrorKind::MisplacedColumnMarker => "unexpected column marker"@,
    }
}

/// The message for a flaw: where it is, then what it is.
pub open spec fn message(flaw: LineFlaw) -> Seq<char> {
    "line "@ + decimal(flaw.line as nat) + ", column "@ + decimal(flaw.column as nat) + ": "@
        + describe(flaw.kind)
}

/// The messages for `flaws`, in order.
pub open spec fn messages(flaws: Seq<LineFlaw>) -> Seq<Seq<char>> {
    Seq::new(flaws.len(), |i: int| message(flaws[i]))
}

/// The first `n` of `messages`, each followed by a line break.
pub open spec fn listing(messages: Seq<Seq<char>>, n: int) -> Seq<char>
    decreases n,
{
    if n <= 0 || n > messages.len() {
        Seq::empty()
    } else {
        listing(messages, n - 1) + messages[n - 1] + seq!['\n']
    }
}

/// What is said of a flaw of the given kind.
pub fn description(kind: ErrorKind) -> (text: &'static str)
    ensures
        text@ == describe(kind),
{
    match kind {
        ErrorKind::MissingLevelMarker => "missing level marker: expected '===', '==', '=' or '-'",
        ErrorKind::CenterWithoutLeft => "center column without left marker",
        ErrorKind::UnclosedItalic => "unclosed italic marker '*'",
        ErrorKind::UnclosedBold => "unclosed bold marker '**'",
        ErrorKind::UnclosedBoldItalic => "unclosed bold-italic marker '***'",
        ErrorKind::EmptySpan => "empty styled span",
        ErrorKind::MisplacedColumnMarker => "unexpected column marker",
    }
}

impl LineError {
    /// The message for this flaw: its line and column, then what is wrong.
    pub fn message(&self) -> (text: String)
        ensures
            text@ == message(self@),
    {
        let mut text = String::from_str("line ");
        push_decimal(&mut text, self.line);
        text.append(", column ");
        push_decimal(&mut text, self.column);
        text.append(": ");
        text.append(description(self.kind));
        text
    }
}

/// Why a text is no chart: one message for each flaw, in the order of the
/// text.
#[derive(Debug)]
pub struct ParseError {
    pub errors: Vec<String>,
}

/// The views of `strings`, in order.
pub open spec fn strings_view(strings: Seq<String>) -> Seq<Seq<char>> {
    Seq::new(strings.len(), |i: int| strings[i]@)
}

impl View for ParseError {
    type V = Seq<Seq<char>>;

    open spec fn view(&self) -> Seq<Seq<char>> {
        strings_view(self.errors@)
    }
}

impl ParseError {
    /// All the messages, one to a line.
    pub fn to_string(&self) -> (text: String)
        ensures
            text@ == listing(self@, self@.len() as int),
    {
        let mut text = String::new();
        let mut i: usize = 0;
        while i < self.errors.len()
            invariant
                i <= self.errors.len(),
                text@ == listing(self@, i as int),
            decreases self.errors.len() - i,
        {
            assert(self@[i as int] == self.errors[i as int]@);
            text.append(self.errors[i].as_str());
            text.push('\n');
            i += 1;
        }
        text
    }
}

/// Whether `r` is what parsing `text` gives: the chart that the text stands
/// for, or one message for each of its flaws.
pub open spec fn is_parse_of(r: Result<Chart, ParseError>, text: Seq<char>) -> bool {
    match document(text) {
        Ok(lines) => r matches Ok(chart) && chart@ == lines,
        Err(flaws) => r matches Err(error) && error@ == messages(flaws),
    }
}

/// Parses a whole chart. Blank lines are passed over. Where every other
/// line is well formed the result is the chart of those lines, in their
/// order. Else it is an error that holds a message for each flaw of each
/// line, in their order, and there is no chart.
pub fn parse_chart(input: &str) -> (r: Result<Chart, ParseError>)
    ensures
        is_parse_of(r, input@),
{
    match parse_document(input) {
        Ok(chart) => Ok(chart),
        Err(faults) => {
            let mut errors: Vec<String> = Vec::new();
            let mut i: usize = 0;
            while i < faults.len()
                invariant
                    i <= faults.len(),
                    errors.len() == i,
                    forall|k: int| 0 <= k < i ==> (#[trigger] errors[k])@ == message(faults[k]@),
                decreases faults.len() - i,
            {
                errors.push(faults[i].message());
                i += 1;
            }
            let error = ParseError { errors };
            assert(error@ =~= messages(errors_view(faults@)));
            Err(error)
        },
    }
}

} // verus!
