//! What holds of the parser on every input, proved from the grammar.

use crate::grammar::{
    bare_form, body_end, center_after, closes, columns_at, columns_start, document, flaws_upto,
    has_at, is_column_marker, is_plain, lemma_body_end, lemma_line_outcome, lemma_plain_end,
    lemma_spans_from, lemma_step_advances, level_at, line_level, line_outcome, line_well_formed,
    marker_len, parsed_upto, plain_end, spans_from, split_lines, step_at, unclosed, ErrorKind,
    Flaw, LineFlaw, Run, Step,
};
use crate::model::{Chart, LineLevel, LineView, SpanView, TextStyle};
use crate::parser::{is_parse_of, ParseError};
use crate::text::{
    is_blank, is_space, lemma_piece_end, lemma_trim_lo_bounds, piece_end, pieces_from, trim_lo,
    trimmed,
};
use vstd::prelude::*;

verus! {

/// Parsing is a function of the text. Two results of parsing one text are
/// both charts, and then the same chart, or both errors, and then the same
/// messages.
pub proof fn lemma_parse_deterministic(
    text: Seq<char>,
    first: Result<Chart, ParseError>,
    second: Result<Chart, ParseError>,
)
    requires
        is_parse_of(first, text),
        is_parse_of(second, text),
    ensures
        match (first, second) {
            (Ok(a), Ok(b)) => a@ == b@,
            (Err(a), Err(b)) => a@ == b@ && a@.len() > 0,
            _ => false,
        },
{
}

/// The longest level marker wins. A line that begins with three equals
/// signs is of the first level, one that begins with two and no third is of
/// the second, and no line that begins with an equals sign or a hyphen lacks
/// a level.
pub proof fn lemma_longest_level_marker(s: Seq<char>)
    ensures
        ({
            let p = trim_lo(s, 0, s.len() as int);
            &&& has_at(s, p, '=') && has_at(s, p + 1, '=') && has_at(s, p + 2, '=') ==> level_at(s, p)
                == Some((LineLevel::Header1, 3int))
            &&& has_at(s, p, '=') && has_at(s, p + 1, '=') && !has_at(s, p + 2, '=') ==> level_at(
                s,
                p,
            ) == Some((LineLevel::Header2, 2int))
            &&& has_at(s, p, '=') && !has_at(s, p + 1, '=') ==> level_at(s, p) == Some(
                (LineLevel::Header3, 1int),
            )
            &&& has_at(s, p, '-') ==> level_at(s, p) == Some((LineLevel::Text, 1int))
            &&& line_outcome(s) matches Ok(Some(line)) ==> level_at(s, p) matches Some((level, n))
                && line.level == level
            &&& line_outcome(s) matches Err(flaw) ==> (flaw.kind == ErrorKind::MissingLevelMarker
                <==> level_at(s, p) is None)
        }),
{
    let p = trim_lo(s, 0, s.len() as int);
    lemma_trim_lo_bounds(s, 0, s.len() as int);
    if p < s.len() {
        if let Some((level, n)) = level_at(s, p) {
            let q = trim_lo(s, p + n, s.len() as int);
            lemma_trim_lo_bounds(s, p + n, s.len() as int);
            lemma_columns_flaw_kind(s, q);
        }
    }
}

/// No flaw of the columns is a missing level marker.
pub proof fn lemma_columns_flaw_kind(s: Seq<char>, p: int)
    requires
        0 <= p <= s.len(),
    ensures
        columns_at(s, p) matches Err(flaw) ==> flaw.kind != ErrorKind::MissingLevelMarker
            && flaw.kind != ErrorKind::MisplacedColumnMarker,
{
    if has_at(s, p, '<') && has_at(s, p + 1, '>') {
    } else if has_at(s, p, '<') {
        lemma_spans_flaw_kind(s, p + 1);
        lemma_spans_from(s, p + 1);
        if let Ok(left) = spans_from(s, p + 1) {
            if has_at(s, left.end, '<') && has_at(s, left.end + 1, '>') {
                lemma_spans_flaw_kind(s, left.end + 2);
                lemma_spans_from(s, left.end + 2);
            }
            if let Ok(center) = center_after(s, left.end) {
                if has_at(s, center.end, '>') {
                    lemma_spans_flaw_kind(s, center.end + 1);
                }
            }
        }
    } else if has_at(s, p, '>') {
        lemma_spans_flaw_kind(s, p + 1);
    } else {
        lemma_spans_flaw_kind(s, p);
    }
}

/// Whether `kind` is a flaw of a styled span.
pub open spec fn is_style_flaw(kind: ErrorKind) -> bool {
    kind == ErrorKind::UnclosedItalic || kind == ErrorKind::UnclosedBold || kind
        == ErrorKind::UnclosedBoldItalic || kind == ErrorKind::EmptySpan
}

/// The only flaws of a run of spans are those of a styled span.
pub proof fn lemma_spans_flaw_kind(s: Seq<char>, p: int)
    requires
        0 <= p <= s.len(),
    ensures
        spans_from(s, p) matches Err(flaw) ==> is_style_flaw(flaw.kind),
    decreases s.len() - p,
{
    if p < s.len() && !is_column_marker(s[p]) {
        lemma_step_advances(s, p);
        match step_at(s, p) {
            Step::Fail { flaw } => {},
            Step::Gap { next } => {
                lemma_spans_flaw_kind(s, next);
            },
            Step::Span { span, next } => {
                lemma_spans_flaw_kind(s, next);
            },
        }
    }
}

/// Whether no asterisk stands in `s` from `from` on.
pub open spec fn no_asterisk_from(s: Seq<char>, from: int) -> bool {
    forall|i: int| from <= i < s.len() ==> #[trigger] s[i] != '*'
}

/// A style marker that is never closed fails the line. Where the text of
/// the columns begins with one, two or three asterisks and no asterisk
/// follows them, the line is flawed at the marker, and the flaw names the
/// marker that was left open.
pub proof fn lemma_unclosed_marker_fails(s: Seq<char>)
    requires
        line_level(s) is Some,
        ({
            let q = columns_start(s);
            has_at(s, q, '*') && no_asterisk_from(s, q + marker_len(s, q))
        }),
    ensures
        ({
            let q = columns_start(s);
            line_outcome(s) == Err::<Option<LineView>, Flaw>(
                Flaw { at: q, kind: unclosed(marker_len(s, q)) },
            )
        }),
{
    let p = trim_lo(s, 0, s.len() as int);
    lemma_trim_lo_bounds(s, 0, s.len() as int);
    let q = columns_start(s);
    let m = marker_len(s, q);
    lemma_body_end(s, q + m, m);
    let e = body_end(s, q + m, m);
    assert(!closes(s, e, m));
    assert(step_at(s, q) == Step::Fail { flaw: Flaw { at: q, kind: unclosed(m) } });
}

/// A flawed line fails the whole text. The text is then no chart, and the
/// list of its flaws is not empty and holds the flaw of that line, at its
/// line number and column, whatever the other lines are.
pub proof fn lemma_flawed_line_fails_document(text: Seq<char>, i: int)
    requires
        0 <= i < split_lines(text).len(),
        line_outcome(split_lines(text)[i]) is Err,
    ensures
        document(text) matches Err(flaws) && flaws.len() > 0 && flaws.contains(
            LineFlaw {
                line: i + 1,
                column: line_outcome(split_lines(text)[i])->Err_0.at + 1,
                kind: line_outcome(split_lines(text)[i])->Err_0.kind,
            },
        ),
{
    let lines = split_lines(text);
    lemma_flaw_is_listed(lines, lines.len() as int, i);
}

/// The flaw of line `i` is among the flaws of the first `n` lines, for
/// every `n` beyond `i`.
pub proof fn lemma_flaw_is_listed(lines: Seq<Seq<char>>, n: int, i: int)
    requires
        0 <= i < n <= lines.len(),
        line_outcome(lines[i]) is Err,
    ensures
        flaws_upto(lines, n).contains(
            LineFlaw {
                line: i + 1,
                column: line_outcome(lines[i])->Err_0.at + 1,
                kind: line_outcome(lines[i])->Err_0.kind,
            },
        ),
    decreases n,
{
    let flaw = line_outcome(lines[i])->Err_0;
    let wanted = LineFlaw { line: i + 1, column: flaw.at + 1, kind: flaw.kind };
    if i == n - 1 {
        let all = flaws_upto(lines, n);
        assert(all[all.len() - 1] == wanted);
    } else {
        lemma_flaw_is_listed(lines, n - 1, i);
        let before = flaws_upto(lines, n - 1);
        let k = choose|k: int| 0 <= k < before.len() && before[k] == wanted;
        assert(flaws_upto(lines, n)[k] == wanted);
    }
}

/// Flaws are listed in the order of the text. Along the list of the flaws
/// of the first `n` lines the line numbers rise, and each is the number of
/// one of those lines, so that no line is listed twice.
pub proof fn lemma_flaws_in_line_order(lines: Seq<Seq<char>>, n: int)
    requires
        0 <= n <= lines.len(),
    ensures
        forall|i: int|
            0 <= i < flaws_upto(lines, n).len() ==> 1 <= (#[trigger] flaws_upto(lines, n)[i]).line
                <= n,
        forall|i: int, j: int|
            0 <= i < j < flaws_upto(lines, n).len() ==> (#[trigger] flaws_upto(lines, n)[i]).line
                < (#[trigger] flaws_upto(lines, n)[j]).line,
    decreases n,
{
    if n > 0 {
        lemma_flaws_in_line_order(lines, n - 1);
        let before = flaws_upto(lines, n - 1);
        let all = flaws_upto(lines, n);
        assert forall|i: int| 0 <= i < all.len() implies 1 <= (#[trigger] all[i]).line <= n by {
            if i < before.len() {
                assert(all[i] == before[i]);
            }
        }
        assert forall|i: int, j: int| 0 <= i < j < all.len() implies (#[trigger] all[i]).line < (
        #[trigger] all[j]).line by {
            assert(all[i] == before[i]);
            if j < before.len() {
                assert(all[j] == before[j]);
            }
        }
    }
}

/// A center column needs a left column. Where the text of the columns
/// begins with the center marker, the line is flawed at that marker, and
/// the flaw says that the left column is missing.
pub proof fn lemma_center_without_left_fails(s: Seq<char>)
    requires
        line_level(s) is Some,
        ({
            let q = columns_start(s);
            has_at(s, q, '<') && has_at(s, q + 1, '>')
        }),
    ensures
        ({
            let q = columns_start(s);
            line_outcome(s) == Err::<Option<LineView>, Flaw>(
                Flaw { at: q, kind: ErrorKind::CenterWithoutLeft },
            )
        }),
{
    lemma_trim_lo_bounds(s, 0, s.len() as int);
}

/// Whether `s` holds neither a column marker nor a style marker from
/// `from` on.
pub open spec fn all_plain_from(s: Seq<char>, from: int) -> bool {
    forall|i: int| from <= i < s.len() ==> is_plain(#[trigger] s[i])
}

/// A line without markers is its left column. Where nothing but unstyled
/// text follows the level marker, the line has that text, trimmed, as the
/// one span of its left column, and its other columns are empty.
pub proof fn lemma_unmarked_line(s: Seq<char>)
    requires
        line_level(s) is Some,
        ({
            let q = columns_start(s);
            q < s.len() && all_plain_from(s, q)
        }),
    ensures
        ({
            let q = columns_start(s);
            line_outcome(s) == Ok::<Option<LineView>, Flaw>(
                Some(
                    LineView {
                        level: line_level(s)->0,
                        left: seq![
                            SpanView {
                                text: trimmed(s, q, s.len() as int),
                                style: TextStyle::Normal,
                            },
                        ],
                        center: Seq::empty(),
                        right: Seq::empty(),
                    },
                ),
            )
        }),
{
    let len = s.len() as int;
    let p = trim_lo(s, 0, len);
    lemma_trim_lo_bounds(s, 0, len);
    let q = columns_start(s);
    match level_at(s, p) {
        Some((_, n)) => {
            lemma_trim_lo_bounds(s, p + n, len);
        },
        None => {},
    }
    lemma_plain_end(s, q);
    assert(plain_end(s, q) == len);
    lemma_trim_lo_bounds(s, q, len);
    assert(!is_blank(s, q, len));
    let span = SpanView { text: trimmed(s, q, len), style: TextStyle::Normal };
    assert(step_at(s, q) == Step::Span { span, next: len });
    assert(spans_from(s, len) == Ok::<Run, Flaw>(Run { spans: Seq::empty(), end: len }));
    assert(seq![span] + Seq::<SpanView>::empty() =~= seq![span]);
    assert(spans_from(s, q) == Ok::<Run, Flaw>(Run { spans: seq![span], end: len }));
    assert(columns_at(s, q) == bare_form(s, q));
}

/// The chart keeps the order of the text. Where each of the first `n` lines
/// of input is a line of the chart, the chart of those lines has `n` lines,
/// and its line `i` is what line `i` of the input stands for.
pub proof fn lemma_lines_keep_their_order(lines: Seq<Seq<char>>, n: int)
    requires
        0 <= n <= lines.len(),
        forall|i: int| 0 <= i < n ==> (#[trigger] line_outcome(lines[i])) matches Ok(Some(_)),
    ensures
        parsed_upto(lines, n).len() == n,
        flaws_upto(lines, n).len() == 0,
        forall|i: int|
            0 <= i < n ==> (#[trigger] line_outcome(lines[i])) == Ok::<Option<LineView>, Flaw>(
                Some(parsed_upto(lines, n)[i]),
            ),
    decreases n,
{
    if n > 0 {
        lemma_lines_keep_their_order(lines, n - 1);
        assert(line_outcome(lines[n - 1]) matches Ok(Some(_)));
    }
}

/// Whether `s` holds white space only.
pub open spec fn all_space(s: Seq<char>) -> bool {
    forall|i: int| 0 <= i < s.len() ==> is_space(#[trigger] s[i])
}

/// Each line of a text of white space is white space.
pub proof fn lemma_lines_of_space(s: Seq<char>, from: int)
    requires
        all_space(s),
        0 <= from <= s.len(),
    ensures
        forall|k: int| 0 <= k < pieces_from(s, '\n', from).len() ==> all_space(#[trigger] pieces_from(s, '\n', from)[k]),
    decreases s.len() - from,
{
    lemma_piece_end(s, '\n', from);
    let end = piece_end(s, '\n', from);
    if end < s.len() {
        lemma_lines_of_space(s, end + 1);
        let rest = pieces_from(s, '\n', end + 1);
        assert forall|k: int| 0 <= k < pieces_from(s, '\n', from).len() implies all_space(
            #[trigger] pieces_from(s, '\n', from)[k],
        ) by {
            if k > 0 {
                assert(pieces_from(s, '\n', from)[k] == rest[k - 1]);
            }
        }
    }
}

/// Lines that are all blank give no line of a chart and no flaw.
pub proof fn lemma_blank_lines(lines: Seq<Seq<char>>, n: int)
    requires
        0 <= n <= lines.len(),
        forall|i: int| 0 <= i < lines.len() ==> all_space(#[trigger] lines[i]),
    ensures
        parsed_upto(lines, n) == Seq::<LineView>::empty(),
        flaws_upto(lines, n) == Seq::<LineFlaw>::empty(),
    decreases n,
{
    if n > 0 {
        lemma_blank_lines(lines, n - 1);
        let s = lines[n - 1];
        assert(all_space(s));
        lemma_trim_lo_bounds(s, 0, s.len() as int);
    }
}

/// Blank input is an empty chart. A text that holds nothing but white
/// space, line breaks among it, is a chart of no lines, and no error.
pub proof fn lemma_blank_text_is_empty_chart(text: Seq<char>)
    requires
        all_space(text),
    ensures
        document(text) == Ok::<Seq<LineView>, Seq<LineFlaw>>(Seq::empty()),
{
    let lines = split_lines(text);
    lemma_lines_of_space(text, 0);
    lemma_blank_lines(lines, lines.len() as int);
}

/// Every span of a chart is well formed: its text is not empty and
/// neither begins nor ends with white space.
pub proof fn lemma_chart_spans_well_formed(text: Seq<char>)
    ensures
        document(text) matches Ok(lines) ==> forall|i: int|
            0 <= i < lines.len() ==> line_well_formed(#[trigger] lines[i]),
{
    let lines = split_lines(text);
    lemma_parsed_well_formed(lines, lines.len() as int);
}

/// Every span of the lines that the first `n` lines of input give is
/// well formed.
pub proof fn lemma_parsed_well_formed(lines: Seq<Seq<char>>, n: int)
    requires
        0 <= n <= lines.len(),
    ensures
        forall|i: int|
            0 <= i < parsed_upto(lines, n).len() ==> line_well_formed(
                #[trigger] parsed_upto(lines, n)[i],
            ),
    decreases n,
{
    if n > 0 {
        lemma_parsed_well_formed(lines, n - 1);
        lemma_line_outcome(lines[n - 1]);
        let before = parsed_upto(lines, n - 1);
        assert forall|i: int| 0 <= i < parsed_upto(lines, n).len() implies line_well_formed(
            #[trigger] parsed_upto(lines, n)[i],
        ) by {
            if i < before.len() {
                assert(parsed_upto(lines, n)[i] == before[i]);
            }
        }
    }
}

} // verus!
