//! A chord chart: sections of measures of chords, under a title.

use vstd::prelude::*;
use vstd::string::StringExecFns;

verus! {

/// How long a chord lasts within its measure.
#[derive(Debug, Clone, Copy, PartialEq, Eq, Structural)]
pub enum Duration {
    Whole,
    Half,
    Quarter,
}

/// A chord: its root, its quality if it has one, and how long it lasts.
#[derive(Debug, Clone)]
pub struct Chord {
    pub root: String,
    pub quality: Option<String>,
    pub duration: Duration,
}

/// What a `Chord` stands for.
pub struct ChordView {
    pub root: Seq<char>,
    pub quality: Option<Seq<char>>,
    pub duration: Duration,
}

/// The characters of a string that may be absent.
pub open spec fn text_view(text: Option<String>) -> Option<Seq<char>> {
    match text {
        Some(s) => Some(s@),
        None => None,
    }
}

impl View for Chord {
    type V = ChordView;

    open spec fn view(&self) -> ChordView {
        ChordView { root: self.root@, quality: text_view(self.quality), duration: self.duration }
    }
}

/// The name of a chord: its root, followed by its quality if it has one.
pub open spec fn chord_name(chord: ChordView) -> Seq<char> {
    match chord.quality {
        Some(quality) => chord.root + quality,
        None => chord.root,
    }
}

impl Chord {
    /// A whole-measure chord on `root`, with no quality.
    pub fn new(root: String) -> (chord: Chord)
        ensures
            chord@ == (ChordView { root: root@, quality: None, duration: Duration::Whole }),
    {
        Chord { root, quality: None, duration: Duration::Whole }
    }

    /// This chord with the given quality.
    pub fn with_quality(self, quality: String) -> (chord: Chord)
        ensures
            chord@ == (ChordView { quality: Some(quality@), ..self@ }),
    {
        let mut chord = self;
        chord.quality = Some(quality);
        chord
    }

    /// This chord with the given duration.
    pub fn with_duration(self, duration: Duration) -> (chord: Chord)
        ensures
            chord@ == (ChordView { duration, ..self@ }),
    {
        let mut chord = self;
        chord.duration = duration;
        chord
    }

    /// The full name of the chord, such as `Cmaj7`, `G7` or `Am`.
    pub fn full_name(&self) -> (name: String)
        ensures
            name@ == chord_name(self@),
    {
        match &self.quality {
            Some(quality) => self.root.clone().concat(quality.as_str()),
            None => self.root.clone(),
        }
    }
}

/// The views of `chords`, in order.
pub open spec fn chords_view(chords: Seq<Chord>) -> Seq<ChordView> {
    Seq::new(chords.len(), |i: int| chords[i]@)
}

/// One measure: its chords, in order.
#[derive(Debug, Clone)]
pub struct Measure {
    pub chords: Vec<Chord>,
}

impl View for Measure {
    type V = Seq<ChordView>;

    open spec fn view(&self) -> Seq<ChordView> {
        chords_view(self.chords@)
    }
}

impl Measure {
    /// A measure with no chords.
    pub fn new() -> (measure: Measure)
        ensures
            measure@ == Seq::<ChordView>::empty(),
    {
        let measure = Measure { chords: Vec::new() };
        assert(measure@ =~= Seq::<ChordView>::empty());
        measure
    }

    /// The measure of the given chords.
    pub fn with_chords(chords: Vec<Chord>) -> (measure: Measure)
        ensures
            measure.chords == chords,
    {
        Measure { chords }
    }
}

impl Default for Measure {
    fn default() -> (measure: Measure)
        ensures
            measure@ == Seq::<ChordView>::empty(),
    {
        Measure::new()
    }
}

/// The views of `measures`, in order.
pub open spec fn measures_view(measures: Seq<Measure>) -> Seq<Seq<ChordView>> {
    Seq::new(measures.len(), |i: int| measures[i]@)
}

/// A named part of a chart, such as a verse or a chorus.
#[derive(Debug, Clone)]
pub struct Section {
    pub name: String,
    pub measures: Vec<Measure>,
}

/// What a `Section` stands for.
pub struct SectionView {
    pub name: Seq<char>,
    pub measures: Seq<Seq<ChordView>>,
}

impl View for Section {
    type V = SectionView;

    open spec fn view(&self) -> SectionView {
        SectionView { name: self.name@, measures: measures_view(self.measures@) }
    }
}

/// The views of `sections`, in order.
pub open spec fn sections_view(sections: Seq<Section>) -> Seq<SectionView> {
    Seq::new(sections.len(), |i: int| sections[i]@)
}

/// A whole chord chart.
#[derive(Debug, Clone)]
pub struct Chart {
    pub title: String,
    pub composer: Option<String>,
    pub key: Option<String>,
    pub time_signature: Option<String>,
    pub sections: Vec<Section>,
}

/// What a `Chart` stands for.
pub struct ChartView {
    pub title: Seq<char>,
    pub composer: Option<Seq<char>>,
    pub key: Option<Seq<char>>,
    pub time_signature: Option<Seq<char>>,
    pub sections: Seq<SectionView>,
}

impl View for Chart {
    type V = ChartView;

    open spec fn view(&self) -> ChartView {
        ChartView {
            title: self.title@,
            composer: text_view(self.composer),
            key: text_view(self.key),
            time_signature: text_view(self.time_signature),
            sections: sections_view(self.sections@),
        }
    }
}

/// The chart that has a title and nothing else: no composer, no key, no
/// sections, in common time.
pub open spec fn titled(title: Seq<char>) -> ChartView {
    ChartView {
        title,
        composer: None,
        key: None,
        time_signature: Some("4/4"@),
        sections: Seq::empty(),
    }
}

impl Chart {
    /// A chart with the given title and nothing else, in common time.
    pub fn new(title: String) -> (chart: Chart)
        ensures
            chart@ == titled(title@),
    {
        let chart = Chart {
            title,
            composer: None,
            key: None,
            time_signature: Some(String::from_str("4/4")),
            sections: Vec::new(),
        };
        assert(chart@.sections =~= Seq::<SectionView>::empty());
        chart
    }
}

} // verus!
