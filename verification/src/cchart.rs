//! The line-oriented chart format: a title and other fields, section
//! headings in square brackets, and lines of measures between bars.

use crate::chart::{
    chords_view, measures_view, sections_view, text_view, titled, Chart, ChartView, Chord,
    ChordView, Duration, Measure, Section, SectionView,
};
use crate::text::{
    chars_of, rows_view, slice_of, split, split_at, split_words, starts_with, string_of, trim,
    trim_bounds, trimmed, words,
};
use vstd::prelude::*;
use vstd::string::StringExecFns;

verus! {

/// Why a text is no chart.
#[derive(Debug, Clone)]
pub enum ChartError {
    /// No line gives the chart a title.
    MissingTitle,
    /// A chord of no characters.
    EmptyChord,
    /// A chord that does not begin with a letter.
    NotALetter { chord: String },
}

/// What a `ChartError` stands for.
pub enum ChartFlaw {
    MissingTitle,
    EmptyChord,
    NotALetter { chord: Seq<char> },
}

impl View for ChartError {
    type V = ChartFlaw;

    open spec fn view(&self) -> ChartFlaw {
        match self {
            ChartError::MissingTitle => ChartFlaw::MissingTitle,
            ChartError::EmptyChord => ChartFlaw::EmptyChord,
            ChartError::NotALetter { chord } => ChartFlaw::NotALetter { chord: chord@ },
        }
    }
}

/// What is said of a flaw.
pub open spec fn flaw_message(flaw: ChartFlaw) -> Seq<char> {
    match flaw {
        ChartFlaw::MissingTitle => "No chart title found in file"@,
        ChartFlaw::EmptyChord => "Empty chord string"@,
        ChartFlaw::NotALetter { chord } => "Chord must start with a letter: "@ + chord,
    }
}

impl ChartError {
    /// What is wrong, in words.
    pub fn message(&self) -> (text: String)
        ensures
            text@ == flaw_message(self@),
    {
        match self {
            ChartError::MissingTitle => String::from_str("No chart title found in file"),
            ChartError::EmptyChord => String::from_str("Empty chord string"),
            ChartError::NotALetter { chord } => String::from_str(
                "Chord must start with a letter: ",
            ).concat(chord.as_str()),
        }
    }
}

/// Whether `c` is a letter of the ASCII alphabet.
pub open spec fn is_letter(c: char) -> bool {
    ('a' <= c && c <= 'z') || ('A' <= c && c <= 'Z')
}

/// Whether `c` is a sharp or a flat sign.
pub open spec fn is_accidental(c: char) -> bool {
    c == '#' || c == 'b'
}

/// The length of the root of the chord `w`: its letter, and the accidental
/// that may follow it.
pub open spec fn root_len(w: Seq<char>) -> int {
    if w.len() > 1 && is_accidental(w[1]) {
        2
    } else {
        1
    }
}

/// The chord that `w` names: a root, and as its quality whatever follows
/// the root.
pub open spec fn chord_of(w: Seq<char>, duration: Duration) -> Result<ChordView, ChartFlaw> {
    if w.len() == 0 {
        Err(ChartFlaw::EmptyChord)
    } else if !is_letter(w[0]) {
        Err(ChartFlaw::NotALetter { chord: w })
    } else {
        Ok(
            ChordView {
                root: w.subrange(0, root_len(w)),
                quality: if root_len(w) < w.len() {
                    Some(w.subrange(root_len(w), w.len() as int))
                } else {
                    None
                },
                duration,
            },
        )
    }
}

/// Whether `w` is a sign of repetition, which stands for no chord.
pub open spec fn is_repeat(w: Seq<char>) -> bool {
    w == seq!['-'] || w == seq!['%']
}

/// How long each chord lasts in a measure of `count` words.
pub open spec fn duration_of(count: int) -> Duration {
    if count == 2 {
        Duration::Half
    } else if count == 4 {
        Duration::Quarter
    } else {
        Duration::Whole
    }
}

/// The chords of the first `n` of the words `ws`, or the flaw of the first
/// word that names no chord.
pub open spec fn chords_upto(ws: Seq<Seq<char>>, duration: Duration, n: int) -> Result<
    Seq<ChordView>,
    ChartFlaw,
>
    decreases n,
{
    if n <= 0 || n > ws.len() {
        Ok(Seq::empty())
    } else {
        match chords_upto(ws, duration, n - 1) {
            Err(flaw) => Err(flaw),
            Ok(chords) => if is_repeat(ws[n - 1]) {
                Ok(chords)
            } else {
                match chord_of(ws[n - 1], duration) {
                    Err(flaw) => Err(flaw),
                    Ok(chord) => Ok(chords.push(chord)),
                }
            },
        }
    }
}

/// The chords of the measure that the words `ws` make.
pub open spec fn measure_of(ws: Seq<Seq<char>>) -> Result<Seq<ChordView>, ChartFlaw> {
    chords_upto(ws, duration_of(ws.len() as int), ws.len() as int)
}

/// The measures of the first `n` of `parts`, or the first flaw in them. A
/// part without words is no measure.
pub open spec fn measures_upto(parts: Seq<Seq<char>>, n: int) -> Result<
    Seq<Seq<ChordView>>,
    ChartFlaw,
>
    decreases n,
{
    if n <= 0 || n > parts.len() {
        Ok(Seq::empty())
    } else {
        match measures_upto(parts, n - 1) {
            Err(flaw) => Err(flaw),
            Ok(measures) => if words(parts[n - 1]).len() == 0 {
                Ok(measures)
            } else {
                match measure_of(words(parts[n - 1])) {
                    Err(flaw) => Err(flaw),
                    Ok(measure) => Ok(measures.push(measure)),
                }
            },
        }
    }
}

/// The measures of the line `s`: what stands between its bars, each
/// measure the chords that its words name. The first flaw in it fails
/// the line.
pub open spec fn measures_of(s: Seq<char>) -> Result<Seq<Seq<ChordView>>, ChartFlaw> {
    measures_upto(split(s, '|'), split(s, '|').len() as int)
}

/// Whether `c` is a square bracket.
pub open spec fn is_bracket(c: char) -> bool {
    c == '[' || c == ']'
}

/// The first position in `from..to` that holds no bracket, or `to`.
pub open spec fn bracket_lo(s: Seq<char>, from: int, to: int) -> int
    decreases to - from,
{
    if 0 <= from < to <= s.len() && is_bracket(s[from]) {
        bracket_lo(s, from + 1, to)
    } else {
        from
    }
}

/// The end of the last stretch in `from..to` that does not end in a
/// bracket, or `from`.
pub open spec fn bracket_hi(s: Seq<char>, from: int, to: int) -> int
    decreases to - from,
{
    if 0 <= from < to <= s.len() && is_bracket(s[to - 1]) {
        bracket_hi(s, from, to - 1)
    } else {
        to
    }
}

/// `s` without the brackets at either end.
pub open spec fn unbracketed(s: Seq<char>) -> Seq<char> {
    let lo = bracket_lo(s, 0, s.len() as int);
    s.subrange(lo, bracket_hi(s, lo, s.len() as int))
}

/// The value of the field that `prefix` introduces, where the line `t`
/// begins with it: the rest of the line, trimmed.
pub open spec fn field(t: Seq<char>, prefix: Seq<char>) -> Option<Seq<char>> {
    if prefix.is_prefix_of(t) {
        Some(trimmed(t, prefix.len() as int, t.len() as int))
    } else {
        None
    }
}

/// What one line of a chart file says.
pub enum Entry {
    /// Nothing: a blank line, a comment, or a line of no known form.
    Nothing,
    /// The title of the chart.
    Title { text: Seq<char> },
    /// Its composer.
    Composer { text: Seq<char> },
    /// Its key.
    Key { text: Seq<char> },
    /// Its time signature.
    Time { text: Seq<char> },
    /// The heading of a section.
    Heading { name: Seq<char> },
    /// A line of measures.
    Measures { line: Seq<char> },
}

/// What the line `line` says. The forms are tried in this order: blank
/// line and comment, the four fields, a heading in brackets, a line with a
/// bar in it.
pub open spec fn entry_of(line: Seq<char>) -> Entry {
    let t = trim(line);
    if t.len() == 0 || t[0] == '#' {
        Entry::Nothing
    } else if field(t, "Title:"@) is Some {
        Entry::Title { text: field(t, "Title:"@)->0 }
    } else if field(t, "Composer:"@) is Some {
        Entry::Composer { text: field(t, "Composer:"@)->0 }
    } else if field(t, "Key:"@) is Some {
        Entry::Key { text: field(t, "Key:"@)->0 }
    } else if field(t, "Time:"@) is Some {
        Entry::Time { text: field(t, "Time:"@)->0 }
    } else if t[0] == '[' && t[t.len() - 1] == ']' {
        Entry::Heading { name: unbracketed(t) }
    } else if t.contains('|') {
        Entry::Measures { line: t }
    } else {
        Entry::Nothing
    }
}

/// How far the reading of a chart file has come: the chart, once a title
/// was read, and the section that is being filled.
pub struct Progress {
    pub chart: Option<ChartView>,
    pub section: Option<SectionView>,
}

/// `chart` with `section` added at its end, where there are both.
pub open spec fn with_section(chart: Option<ChartView>, section: Option<SectionView>) -> Option<
    ChartView,
> {
    match (chart, section) {
        (Some(c), Some(s)) => Some(ChartView { sections: c.sections.push(s), ..c }),
        _ => chart,
    }
}

/// The section to which measures are added: the one being filled, or a
/// new one by the name of `Main`.
pub open spec fn open_section(section: Option<SectionView>) -> SectionView {
    match section {
        Some(s) => s,
        None => SectionView { name: "Main"@, measures: Seq::empty() },
    }
}

/// The state after a line that says `entry`. A title begins a new chart. The
/// other fields are set where there is a chart, and are lost where there is
/// none. A heading closes the section before it and opens a new one. Measures
/// are added to the open section, and their first flaw ends the reading.
pub open spec fn advance(state: Progress, entry: Entry) -> Result<Progress, ChartFlaw> {
    match entry {
        Entry::Nothing => Ok(state),
        Entry::Title { text } => Ok(Progress { chart: Some(titled(text)), ..state }),
        Entry::Composer { text } => Ok(
            Progress {
                chart: match state.chart {
                    Some(c) => Some(ChartView { composer: Some(text), ..c }),
                    None => None,
                },
                ..state
            },
        ),
        Entry::Key { text } => Ok(
            Progress {
                chart: match state.chart {
                    Some(c) => Some(ChartView { key: Some(text), ..c }),
                    None => None,
                },
                ..state
            },
        ),
        Entry::Time { text } => Ok(
            Progress {
                chart: match state.chart {
                    Some(c) => Some(ChartView { time_signature: Some(text), ..c }),
                    None => None,
                },
                ..state
            },
        ),
        Entry::Heading { name } => Ok(
            Progress {
                chart: with_section(state.chart, state.section),
                section: Some(SectionView { name, measures: Seq::empty() }),
            },
        ),
        Entry::Measures { line } => match measures_of(line) {
            Err(flaw) => Err(flaw),
            Ok(measures) => Ok(
                Progress {
                    section: Some(
                        SectionView {
                            measures: open_section(state.section).measures + measures,
                            ..open_section(state.section)
                        },
                    ),
                    ..state
                },
            ),
        },
    }
}

/// The state after the first `n` of `lines`, or the flaw that ended the
/// reading.
pub open spec fn progress_upto(lines: Seq<Seq<char>>, n: int) -> Result<Progress, ChartFlaw>
    decreases n,
{
    if n <= 0 || n > lines.len() {
        Ok(Progress { chart: None, section: None })
    } else {
        match progress_upto(lines, n - 1) {
            Err(flaw) => Err(flaw),
            Ok(state) => advance(state, entry_of(lines[n - 1])),
        }
    }
}

/// The chart that a text stands for: what its lines say, one after the
/// other, with the last section closed. A text without a title is no chart.
pub open spec fn chart_of(text: Seq<char>) -> Result<ChartView, ChartFlaw> {
    let lines = split(text, '\n');
    match progress_upto(lines, lines.len() as int) {
        Err(flaw) => Err(flaw),
        Ok(state) => match with_section(state.chart, state.section) {
            Some(chart) => Ok(chart),
            None => Err(ChartFlaw::MissingTitle),
        },
    }
}

fn is_ascii_letter(c: char) -> (b: bool)
    ensures
        b == is_letter(c),
{
    ('a' <= c && c <= 'z') || ('A' <= c && c <= 'Z')
}

/// Whether a result of reading a chord is what the format gives.
pub open spec fn is_chord(r: Result<Chord, ChartError>, chord: Result<ChordView, ChartFlaw>) -> bool {
    match chord {
        Err(flaw) => r matches Err(e) && e@ == flaw,
        Ok(c) => r matches Ok(x) && x@ == c,
    }
}

/// Whether a result of reading measures is what the format gives.
pub open spec fn is_measures(
    r: Result<Vec<Measure>, ChartError>,
    measures: Result<Seq<Seq<ChordView>>, ChartFlaw>,
) -> bool {
    match measures {
        Err(flaw) => r matches Err(e) && e@ == flaw,
        Ok(m) => r matches Ok(x) && measures_view(x@) == m,
    }
}

fn chord_from(w: &Vec<char>, duration: Duration) -> (r: Result<Chord, ChartError>)
    ensures
        is_chord(r, chord_of(w@, duration)),
{
    if w.len() == 0 {
        return Err(ChartError::EmptyChord);
    }
    if !is_ascii_letter(w[0]) {
        let chord = string_of(w, 0, w.len());
        assert(w@.subrange(0, w@.len() as int) =~= w@);
        return Err(ChartError::NotALetter { chord });
    }
    let n: usize = if w.len() > 1 && (w[1] == '#' || w[1] == 'b') {
        2
    } else {
        1
    };
    let mut chord = Chord::new(string_of(w, 0, n));
    if n < w.len() {
        chord = chord.with_quality(string_of(w, n, w.len()));
    }
    Ok(chord.with_duration(duration))
}

/// Reads one chord, such as `Cmaj7`, `G7` or `F#m`: a letter, the sharp or
/// flat sign that may follow it, and as the quality whatever follows that.
/// A chord of no characters, or one that does not begin with a letter, is
/// refused.
pub fn parse_chord(chord_str: &str, duration: Duration) -> (r: Result<Chord, ChartError>)
    ensures
        is_chord(r, chord_of(chord_str@, duration)),
{
    let w = chars_of(chord_str);
    chord_from(&w, duration)
}

fn is_repeat_sign(w: &Vec<char>) -> (b: bool)
    ensures
        b == is_repeat(w@),
{
    let b = w.len() == 1 && (w[0] == '-' || w[0] == '%');
    proof {
        if b {
            assert(w@ =~= seq![w@[0]]);
        } else if w.len() == 1 {
            assert(seq!['-'][0] == '-');
            assert(seq!['%'][0] == '%');
        } else {
            assert(seq!['-'].len() == 1);
            assert(seq!['%'].len() == 1);
        }
    }
    b
}

fn duration_for(count: usize) -> (duration: Duration)
    ensures
        duration == duration_of(count as int),
{
    if count == 2 {
        Duration::Half
    } else if count == 4 {
        Duration::Quarter
    } else {
        Duration::Whole
    }
}

/// Once a word has failed, the words after it change nothing.
pub proof fn lemma_chords_stay_failed(ws: Seq<Seq<char>>, duration: Duration, i: int, n: int)
    requires
        0 <= i <= n <= ws.len(),
        chords_upto(ws, duration, i) is Err,
    ensures
        chords_upto(ws, duration, n) == chords_upto(ws, duration, i),
    decreases n - i,
{
    if i < n {
        lemma_chords_stay_failed(ws, duration, i, n - 1);
    }
}

/// Once a part has failed, the parts after it change nothing.
pub proof fn lemma_measures_stay_failed(parts: Seq<Seq<char>>, i: int, n: int)
    requires
        0 <= i <= n <= parts.len(),
        measures_upto(parts, i) is Err,
    ensures
        measures_upto(parts, n) == measures_upto(parts, i),
    decreases n - i,
{
    if i < n {
        lemma_measures_stay_failed(parts, i, n - 1);
    }
}

/// Once a line has failed, the lines after it change nothing.
pub proof fn lemma_progress_stays_failed(lines: Seq<Seq<char>>, i: int, n: int)
    requires
        0 <= i <= n <= lines.len(),
        progress_upto(lines, i) is Err,
    ensures
        progress_upto(lines, n) == progress_upto(lines, i),
    decreases n - i,
{
    if i < n {
        lemma_progress_stays_failed(lines, i, n - 1);
    }
}

fn measure_from(ws: &Vec<Vec<char>>) -> (r: Result<Measure, ChartError>)
    ensures
        match measure_of(rows_view(ws@)) {
            Err(flaw) => r matches Err(e) && e@ == flaw,
            Ok(m) => r matches Ok(x) && x@ == m,
        },
{
    let duration = duration_for(ws.len());
    let mut chords: Vec<Chord> = Vec::new();
    assert(chords_view(chords@) =~= Seq::<ChordView>::empty());
    let mut i: usize = 0;
    while i < ws.len()
        invariant
            i <= ws.len(),
            duration == duration_of(ws.len() as int),
            chords_upto(rows_view(ws@), duration, i as int) == Ok::<Seq<ChordView>, ChartFlaw>(
                chords_view(chords@),
            ),
        decreases ws.len() - i,
    {
        assert(rows_view(ws@)[i as int] == ws[i as int]@);
        if !is_repeat_sign(&ws[i]) {
            match chord_from(&ws[i], duration) {
                Err(e) => {
                    proof {
                        lemma_chords_stay_failed(
                            rows_view(ws@),
                            duration,
                            i + 1,
                            ws.len() as int,
                        );
                    }
                    return Err(e);
                },
                Ok(chord) => {
                    proof {
                        assert(chords_view(chords@.push(chord)) =~= chords_view(chords@).push(
                            chord@,
                        ));
                    }
                    chords.push(chord);
                },
            }
        }
        i += 1;
    }
    Ok(Measure::with_chords(chords))
}

fn measures_from(t: &Vec<char>) -> (r: Result<Vec<Measure>, ChartError>)
    ensures
        is_measures(r, measures_of(t@)),
{
    let parts = split_at(t, '|');
    let mut measures: Vec<Measure> = Vec::new();
    assert(measures_view(measures@) =~= Seq::<Seq<ChordView>>::empty());
    let mut i: usize = 0;
    while i < parts.len()
        invariant
            i <= parts.len(),
            rows_view(parts@) == split(t@, '|'),
            measures_upto(split(t@, '|'), i as int) == Ok::<Seq<Seq<ChordView>>, ChartFlaw>(
                measures_view(measures@),
            ),
        decreases parts.len() - i,
    {
        assert(rows_view(parts@)[i as int] == parts[i as int]@);
        let ws = split_words(&parts[i]);
        if ws.len() > 0 {
            match measure_from(&ws) {
                Err(e) => {
                    proof {
                        lemma_measures_stay_failed(split(t@, '|'), i + 1, parts.len() as int);
                    }
                    return Err(e);
                },
                Ok(measure) => {
                    proof {
                        assert(measures_view(measures@.push(measure)) =~= measures_view(
                            measures@,
                        ).push(measure@));
                    }
                    measures.push(measure);
                },
            }
        }
        i += 1;
    }
    Ok(measures)
}

/// Reads a line of measures, such as `| Cmaj7 | G7 | Am | Dm7 G7 |`. Each
/// stretch between bars that holds a word is a measure, and each of its
/// words but `-` and `%` is a chord. A measure of two words holds half
/// notes, one of four holds quarter notes, any other holds whole notes.
pub fn parse_measure_line(line: &str) -> (r: Result<Vec<Measure>, ChartError>)
    ensures
        is_measures(r, measures_of(line@)),
{
    let t = chars_of(line);
    measures_from(&t)
}

fn read_field(t: &Vec<char>, prefix: &str) -> (r: Option<String>)
    ensures
        text_view(r) == field(t@, prefix@),
{
    if starts_with(t, prefix) {
        let n = prefix.unicode_len();
        let (lo, hi) = trim_bounds(t, n, t.len());
        Some(string_of(t, lo, hi))
    } else {
        None
    }
}

fn heading_name(t: &Vec<char>) -> (name: String)
    ensures
        name@ == unbracketed(t@),
{
    let mut lo: usize = 0;
    while lo < t.len() && (t[lo] == '[' || t[lo] == ']')
        invariant
            lo <= t.len(),
            bracket_lo(t@, 0, t@.len() as int) == bracket_lo(t@, lo as int, t@.len() as int),
        decreases t.len() - lo,
    {
        lo += 1;
    }
    let mut hi: usize = t.len();
    while lo < hi && (t[hi - 1] == '[' || t[hi - 1] == ']')
        invariant
            lo <= hi <= t.len(),
            bracket_hi(t@, lo as int, t@.len() as int) == bracket_hi(t@, lo as int, hi as int),
        decreases hi - lo,
    {
        hi -= 1;
    }
    string_of(t, lo, hi)
}

fn has_bar(t: &Vec<char>) -> (b: bool)
    ensures
        b == t@.contains('|'),
{
    let mut i: usize = 0;
    while i < t.len()
        invariant
            i <= t.len(),
            forall|k: int| 0 <= k < i ==> t@[k] != '|',
        decreases t.len() - i,
    {
        if t[i] == '|' {
            return true;
        }
        i += 1;
    }
    false
}

/// What an optional chart stands for.
pub open spec fn chart_view(chart: Option<Chart>) -> Option<ChartView> {
    match chart {
        Some(c) => Some(c@),
        None => None,
    }
}

/// What an optional section stands for.
pub open spec fn section_view(section: Option<Section>) -> Option<SectionView> {
    match section {
        Some(s) => Some(s@),
        None => None,
    }
}

fn close_section(chart: Option<Chart>, section: Option<Section>) -> (r: Option<Chart>)
    ensures
        chart_view(r) == with_section(chart_view(chart), section_view(section)),
{
    match chart {
        Some(mut c) => {
            match section {
                Some(s) => {
                    proof {
                        assert(sections_view(c.sections@.push(s)) =~= sections_view(
                            c.sections@,
                        ).push(s@));
                    }
                    c.sections.push(s);
                    Some(c)
                },
                None => Some(c),
            }
        },
        None => None,
    }
}

fn read_line(chart: Option<Chart>, section: Option<Section>, row: &Vec<char>) -> (r: Result<
    (Option<Chart>, Option<Section>),
    ChartError,
>)
    ensures
        match advance(
            Progress { chart: chart_view(chart), section: section_view(section) },
            entry_of(row@),
        ) {
            Err(flaw) => r matches Err(e) && e@ == flaw,
            Ok(state) => r matches Ok((c, s)) && chart_view(c) == state.chart && section_view(s)
                == state.section,
        },
{
    let (lo, hi) = trim_bounds(row, 0, row.len());
    let t = slice_of(row, lo, hi);
    if t.len() == 0 || t[0] == '#' {
        return Ok((chart, section));
    }
    if let Some(title) = read_field(&t, "Title:") {
        return Ok((Some(Chart::new(title)), section));
    }
    if let Some(composer) = read_field(&t, "Composer:") {
        let chart = match chart {
            Some(mut c) => {
                c.composer = Some(composer);
                Some(c)
            },
            None => None,
        };
        return Ok((chart, section));
    }
    if let Some(key) = read_field(&t, "Key:") {
        let chart = match chart {
            Some(mut c) => {
                c.key = Some(key);
                Some(c)
            },
            None => None,
        };
        return Ok((chart, section));
    }
    if let Some(time) = read_field(&t, "Time:") {
        let chart = match chart {
            Some(mut c) => {
                c.time_signature = Some(time);
                Some(c)
            },
            None => None,
        };
        return Ok((chart, section));
    }
    if t[0] == '[' && t[t.len() - 1] == ']' {
        let chart = close_section(chart, section);
        let opened = Section { name: heading_name(&t), measures: Vec::new() };
        assert(opened@.measures =~= Seq::<Seq<ChordView>>::empty());
        return Ok((chart, Some(opened)));
    }
    if has_bar(&t) {
        let mut open = match section {
            Some(s) => s,
            None => {
                let s = Section { name: String::from_str("Main"), measures: Vec::new() };
                assert(s@.measures =~= Seq::<Seq<ChordView>>::empty());
                s
            },
        };
        let mut measures = match measures_from(&t) {
            Err(e) => {
                return Err(e);
            },
            Ok(m) => m,
        };
        let ghost before = open.measures@;
        let ghost added = measures@;
        open.measures.append(&mut measures);
        assert(measures_view(before + added) =~= measures_view(before) + measures_view(added));
        return Ok((chart, Some(open)));
    }
    Ok((chart, section))
}

/// Whether a result of reading a chart file is what the format gives.
pub open spec fn is_chart(r: Result<Chart, ChartError>, chart: Result<ChartView, ChartFlaw>) -> bool {
    match chart {
        Err(flaw) => r matches Err(e) && e@ == flaw,
        Ok(c) => r matches Ok(x) && x@ == c,
    }
}

/// Reads a chart file. Its lines are read one after the other, trimmed.
/// Blank lines, lines that begin with `#` and lines of no known form say
/// nothing. `Title:` begins the chart, and `Composer:`, `Key:` and `Time:`
/// set its fields. A line in square brackets opens a section, and a line with
/// a bar in it adds its measures to the open section, or to a section `Main`
/// where none is open. The first flaw in a line of measures is the error. A
/// text without a title is an error too.
pub fn parse_chart(content: &str) -> (r: Result<Chart, ChartError>)
    ensures
        is_chart(r, chart_of(content@)),
{
    let text = chars_of(content);
    let rows = split_at(&text, '\n');
    let mut chart: Option<Chart> = None;
    let mut section: Option<Section> = None;
    let mut i: usize = 0;
    while i < rows.len()
        invariant
            i <= rows.len(),
            rows_view(rows@) == split(content@, '\n'),
            progress_upto(split(content@, '\n'), i as int) == Ok::<Progress, ChartFlaw>(
                Progress { chart: chart_view(chart), section: section_view(section) },
            ),
        decreases rows.len() - i,
    {
        assert(rows_view(rows@)[i as int] == rows[i as int]@);
        match read_line(chart, section, &rows[i]) {
            Err(e) => {
                proof {
                    lemma_progress_stays_failed(split(content@, '\n'), i + 1, rows.len() as int);
                }
                return Err(e);
            },
            Ok((c, s)) => {
                chart = c;
                section = s;
            },
        }
        i += 1;
    }
    match close_section(chart, section) {
        Some(c) => Ok(c),
        None => Err(ChartError::MissingTitle),
    }
}

} // verus!
