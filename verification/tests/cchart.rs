use chord_script::cchart::{parse_chart, parse_chord, parse_measure_line, ChartError};
use chord_script::chart::{Chart, Chord, Duration, Measure};
use chord_script::output::OutputFormat;

fn names(measure: &Measure) -> Vec<String> {
    measure.chords.iter().map(|c| c.full_name()).collect()
}

#[test]
fn test_parse_simple_chart() {
    let content = r#"
Title: Test Song
Composer: Test Artist
Key: C
Time: 4/4

[Verse]
| Cmaj7 | G7 | Am | Dm7 G7 |

[Chorus]
| F | C | G | C |
"#;
    let chart = parse_chart(content).unwrap();
    assert_eq!(chart.title, "Test Song");
    assert_eq!(chart.composer, Some("Test Artist".to_string()));
    assert_eq!(chart.key, Some("C".to_string()));
    assert_eq!(chart.sections.len(), 2);
    assert_eq!(chart.sections[0].name, "Verse");
    assert_eq!(chart.sections[0].measures.len(), 4);
}

#[test]
fn test_parse_chord() {
    let chord = parse_chord("Cmaj7", Duration::Whole).unwrap();
    assert_eq!(chord.root, "C");
    assert_eq!(chord.quality, Some("maj7".to_string()));

    let chord2 = parse_chord("G#m", Duration::Half).unwrap();
    assert_eq!(chord2.root, "G#");
    assert_eq!(chord2.quality, Some("m".to_string()));
}

#[test]
fn chord_of_a_root_alone_has_no_quality() {
    let chord = parse_chord("C", Duration::Quarter).unwrap();
    assert_eq!(chord.root, "C");
    assert_eq!(chord.quality, None);
    assert_eq!(chord.duration, Duration::Quarter);
    let chord = parse_chord("Bb", Duration::Whole).unwrap();
    assert_eq!(chord.root, "Bb");
    assert_eq!(chord.quality, None);
    let chord = parse_chord("Eb7", Duration::Half).unwrap();
    assert_eq!(chord.root, "Eb");
    assert_eq!(chord.quality, Some("7".to_string()));
    assert_eq!(chord.duration, Duration::Half);
    assert_eq!(chord.full_name(), "Eb7");
}

#[test]
fn chord_errors() {
    let e = parse_chord("", Duration::Whole).unwrap_err();
    assert!(matches!(e, ChartError::EmptyChord));
    assert_eq!(e.message(), "Empty chord string");
    let e = parse_chord("7th", Duration::Whole).unwrap_err();
    assert!(matches!(&e, ChartError::NotALetter { chord } if chord == "7th"));
    assert_eq!(e.message(), "Chord must start with a letter: 7th");
    let e = parse_chord("\u{e9}", Duration::Whole).unwrap_err();
    assert!(matches!(e, ChartError::NotALetter { .. }));
}

#[test]
fn measure_line_durations_follow_the_number_of_words() {
    let measures = parse_measure_line("| Cmaj7 | G7 Am | C D E F | A B C | - |").unwrap();
    assert_eq!(measures.len(), 5);
    assert_eq!(names(&measures[0]), vec!["Cmaj7"]);
    assert_eq!(measures[0].chords[0].duration, Duration::Whole);
    assert_eq!(names(&measures[1]), vec!["G7", "Am"]);
    assert_eq!(measures[1].chords[0].duration, Duration::Half);
    assert_eq!(measures[1].chords[1].duration, Duration::Half);
    assert_eq!(names(&measures[2]), vec!["C", "D", "E", "F"]);
    assert_eq!(measures[2].chords[3].duration, Duration::Quarter);
    assert_eq!(names(&measures[3]), vec!["A", "B", "C"]);
    assert_eq!(measures[3].chords[1].duration, Duration::Whole);
    assert!(measures[4].chords.is_empty());
}

#[test]
fn repeat_signs_count_as_words_and_make_no_chord() {
    let measures = parse_measure_line("C % | - G - %").unwrap();
    assert_eq!(measures.len(), 2);
    assert_eq!(names(&measures[0]), vec!["C"]);
    assert_eq!(measures[0].chords[0].duration, Duration::Half);
    assert_eq!(names(&measures[1]), vec!["G"]);
    assert_eq!(measures[1].chords[0].duration, Duration::Quarter);
}

#[test]
fn measure_line_without_words_has_no_measures() {
    assert!(parse_measure_line("").unwrap().is_empty());
    assert!(parse_measure_line("| |  ||").unwrap().is_empty());
}

#[test]
fn first_bad_chord_fails_the_line() {
    let e = parse_measure_line("| C | 1x G | 2y |").unwrap_err();
    assert!(matches!(&e, ChartError::NotALetter { chord } if chord == "1x"));
}

#[test]
fn chart_without_title_is_an_error() {
    let e = parse_chart("[Verse]\n| C |\n").unwrap_err();
    assert!(matches!(e, ChartError::MissingTitle));
    assert_eq!(e.message(), "No chart title found in file");
    assert!(matches!(parse_chart("").unwrap_err(), ChartError::MissingTitle));
}

#[test]
fn bad_chord_is_an_error_even_without_title() {
    let e = parse_chart("| C | ?? |\n").unwrap_err();
    assert!(matches!(&e, ChartError::NotALetter { chord } if chord == "??"));
}

#[test]
fn measures_before_any_heading_go_to_main() {
    let chart = parse_chart("Title: T\n| C | G |\n").unwrap();
    assert_eq!(chart.sections.len(), 1);
    assert_eq!(chart.sections[0].name, "Main");
    assert_eq!(chart.sections[0].measures.len(), 2);
}

#[test]
fn new_chart_is_in_common_time() {
    let chart = parse_chart("Title: T").unwrap();
    assert_eq!(chart.title, "T");
    assert_eq!(chart.composer, None);
    assert_eq!(chart.key, None);
    assert_eq!(chart.time_signature, Some("4/4".to_string()));
    assert!(chart.sections.is_empty());
    let chart = Chart::new("X".to_string());
    assert_eq!(chart.time_signature, Some("4/4".to_string()));
}

#[test]
fn fields_and_comments() {
    let chart = parse_chart("# a comment\nTitle:   Spaced  \nTime:3/4\nKey: Bb\nnothing here\n# | C |\n").unwrap();
    assert_eq!(chart.title, "Spaced");
    assert_eq!(chart.time_signature, Some("3/4".to_string()));
    assert_eq!(chart.key, Some("Bb".to_string()));
    assert!(chart.sections.is_empty());
}

#[test]
fn fields_before_the_title_are_lost() {
    let chart = parse_chart("Composer: A\nTitle: T\nKey: G").unwrap();
    assert_eq!(chart.composer, None);
    assert_eq!(chart.key, Some("G".to_string()));
}

#[test]
fn second_title_begins_the_chart_anew() {
    let chart = parse_chart("Title: A\nComposer: X\n[One]\n| C |\n[Two]\nTitle: B\n| G |\n").unwrap();
    assert_eq!(chart.title, "B");
    assert_eq!(chart.composer, None);
    assert_eq!(chart.sections.len(), 1);
    assert_eq!(chart.sections[0].name, "Two");
    assert_eq!(chart.sections[0].measures.len(), 1);
}

#[test]
fn heading_loses_all_brackets_at_its_ends() {
    let chart = parse_chart("Title: T\n[[Verse 1]]\n[a]b]\n").unwrap();
    assert_eq!(chart.sections.len(), 2);
    assert_eq!(chart.sections[0].name, "Verse 1");
    assert!(chart.sections[0].measures.is_empty());
    assert_eq!(chart.sections[1].name, "a]b");
}

#[test]
fn sections_keep_their_order_and_measures() {
    let chart = parse_chart("Title: T\r\n[A]\r\n| C | D |\r\n| E |\r\n[B]\r\n[C]\r\n| F G |\r\n").unwrap();
    let names_of: Vec<&str> = chart.sections.iter().map(|s| s.name.as_str()).collect();
    assert_eq!(names_of, vec!["A", "B", "C"]);
    assert_eq!(chart.sections[0].measures.len(), 3);
    assert_eq!(chart.sections[1].measures.len(), 0);
    assert_eq!(names(&chart.sections[2].measures[0]), vec!["F", "G"]);
}

#[test]
fn chord_builders() {
    let chord = Chord::new("A".to_string());
    assert_eq!(chord.root, "A");
    assert_eq!(chord.quality, None);
    assert_eq!(chord.duration, Duration::Whole);
    assert_eq!(chord.full_name(), "A");
    let chord = chord.with_quality("m7".to_string()).with_duration(Duration::Half);
    assert_eq!(chord.quality, Some("m7".to_string()));
    assert_eq!(chord.duration, Duration::Half);
    assert_eq!(chord.full_name(), "Am7");
}

#[test]
fn measure_builders() {
    assert!(Measure::new().chords.is_empty());
    assert!(Measure::default().chords.is_empty());
    let m = Measure::with_chords(vec![Chord::new("C".to_string()), Chord::new("G".to_string())]);
    assert_eq!(names(&m), vec!["C", "G"]);
}

#[test]
fn output_format_extensions() {
    assert_eq!(OutputFormat::Svg.extension(), "svg");
    assert_eq!(OutputFormat::Png.extension(), "png");
    assert_eq!(OutputFormat::Pdf.extension(), "pdf");
}
