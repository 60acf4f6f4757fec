use chord_script::grammar::ErrorKind;
use chord_script::model::{Chart, Line, LineLevel, TextSpan, TextStyle};
use chord_script::parser::{parse_chart, parse_document, parse_line, Fault, LineError};

fn chars(s: &str) -> Vec<char> {
    s.chars().collect()
}

fn line_of(s: &str) -> Line {
    parse_line(&chars(s)).unwrap().unwrap()
}

fn fault_of(s: &str) -> Fault {
    parse_line(&chars(s)).unwrap_err()
}

fn texts(spans: &[TextSpan]) -> Vec<&str> {
    spans.iter().map(|s| s.text.as_str()).collect()
}

#[test]
fn test_parse_empty() {
    let result = parse_chart("");
    assert!(result.is_ok());
    assert_eq!(result.unwrap().lines.len(), 0);
}

#[test]
fn test_parse_header1() {
    let result = parse_chart("=== Left");
    assert!(result.is_ok());
    let chart = result.unwrap();
    assert_eq!(chart.lines.len(), 1);
    assert_eq!(chart.lines[0].level, LineLevel::Header1);
}

#[test]
fn test_parse_alignment() {
    let result = parse_chart("=== <Left <>Center >Right");
    assert!(result.is_ok());
    let chart = result.unwrap();
    assert_eq!(chart.lines.len(), 1);
    assert_eq!(chart.lines[0].level, LineLevel::Header1);

    assert_eq!(chart.lines[0].left.len(), 1);
    assert_eq!(chart.lines[0].left[0].text, "Left");
    assert_eq!(chart.lines[0].left[0].style, TextStyle::Normal);

    assert_eq!(chart.lines[0].center.len(), 1);
    assert_eq!(chart.lines[0].center[0].text, "Center");
    assert_eq!(chart.lines[0].center[0].style, TextStyle::Normal);

    assert_eq!(chart.lines[0].right.len(), 1);
    assert_eq!(chart.lines[0].right[0].text, "Right");
    assert_eq!(chart.lines[0].right[0].style, TextStyle::Normal);
}

#[test]
fn test_parse_multiline() {
    let input = r#"=== <Song Title <>Composer >2024
== <Verse 1
= Intro
- Piano only"#;

    let result = parse_chart(input);
    assert!(result.is_ok());
    let chart = result.unwrap();
    assert_eq!(chart.lines.len(), 4);

    assert_eq!(chart.lines[0].level, LineLevel::Header1);
    assert_eq!(chart.lines[0].left[0].text, "Song Title");
    assert_eq!(chart.lines[0].center[0].text, "Composer");
    assert_eq!(chart.lines[0].right[0].text, "2024");

    assert_eq!(chart.lines[1].level, LineLevel::Header2);
    assert_eq!(chart.lines[1].left[0].text, "Verse 1");

    assert_eq!(chart.lines[2].level, LineLevel::Header3);
    assert_eq!(chart.lines[2].left[0].text, "Intro");

    assert_eq!(chart.lines[3].level, LineLevel::Text);
    assert_eq!(chart.lines[3].left[0].text, "Piano only");
}

#[test]
fn test_parse_invalid_input_returns_error() {
    let invalid_input = "=== *Unclosed italic marker";

    let result = parse_chart(invalid_input);
    assert!(result.is_err(), "Expected parser to return an error for unclosed italic marker");

    let error = result.unwrap_err();
    assert!(!error.errors.is_empty(), "Expected at least one error message");
}

#[test]
fn parsing_twice_gives_equal_charts() {
    let input = "=== <Title <>**By** >*2024*\n\n- some ***text*** here\n";
    let first = parse_chart(input).unwrap();
    let second = parse_chart(input).unwrap();
    assert_eq!(first, second);
    let bad = "= *a\nfoo\n== ok";
    assert_eq!(parse_chart(bad).unwrap_err().errors, parse_chart(bad).unwrap_err().errors);
}

#[test]
fn longest_level_marker_wins() {
    let line = line_of("=== text");
    assert_eq!(line.level, LineLevel::Header1);
    assert_eq!(texts(&line.left), vec!["text"]);
    assert_eq!(line_of("== text").level, LineLevel::Header2);
    assert_eq!(line_of("= text").level, LineLevel::Header3);
    assert_eq!(line_of("- text").level, LineLevel::Text);
    let four = line_of("==== text");
    assert_eq!(four.level, LineLevel::Header1);
    assert_eq!(texts(&four.left), vec!["= text"]);
}

#[test]
fn level_marker_needs_no_space_after_it() {
    let line = line_of("=Intro");
    assert_eq!(line.level, LineLevel::Header3);
    assert_eq!(texts(&line.left), vec!["Intro"]);
    let line = line_of("   ==   Verse   ");
    assert_eq!(line.level, LineLevel::Header2);
    assert_eq!(texts(&line.left), vec!["Verse"]);
}

#[test]
fn level_marker_alone_is_a_line_of_empty_columns() {
    let line = line_of("===");
    assert_eq!(line, Line::new(LineLevel::Header1, vec![], vec![], vec![]));
    let line = line_of("-   ");
    assert_eq!(line, Line::new(LineLevel::Text, vec![], vec![], vec![]));
}

#[test]
fn columns_in_order_of_precedence() {
    let line = line_of("=== <Left <>Center >Right");
    assert_eq!(
        line,
        Line::new(
            LineLevel::Header1,
            vec![TextSpan::plain("Left")],
            vec![TextSpan::plain("Center")],
            vec![TextSpan::plain("Right")],
        )
    );
}

#[test]
fn left_and_right_without_center() {
    let line = line_of("- <Left >Right");
    assert_eq!(
        line,
        Line::new(LineLevel::Text, vec![TextSpan::plain("Left")], vec![], vec![TextSpan::plain("Right")])
    );
}

#[test]
fn right_column_only() {
    let line = line_of("= >Right");
    assert_eq!(line, Line::new(LineLevel::Header3, vec![], vec![], vec![TextSpan::plain("Right")]));
}

#[test]
fn left_marker_with_empty_columns() {
    let line = line_of("= < <> >");
    assert_eq!(line, Line::new(LineLevel::Header3, vec![], vec![], vec![]));
    let line = line_of("= <<>c");
    assert_eq!(line, Line::new(LineLevel::Header3, vec![], vec![TextSpan::plain("c")], vec![]));
}

#[test]
fn unclosed_markers_fail() {
    assert_eq!(fault_of("=== *Unclosed"), Fault { offset: 4, kind: ErrorKind::UnclosedItalic });
    assert_eq!(fault_of("=== **Unclosed"), Fault { offset: 4, kind: ErrorKind::UnclosedBold });
    assert_eq!(fault_of("=== ***Unclosed"), Fault { offset: 4, kind: ErrorKind::UnclosedBoldItalic });
    for input in ["=== *Unclosed", "=== **Unclosed", "=== ***Unclosed"] {
        let error = parse_chart(input).unwrap_err();
        assert_eq!(error.errors.len(), 1);
    }
    assert_eq!(
        parse_chart("=== *Unclosed").unwrap_err().errors,
        vec!["line 1, column 5: unclosed italic marker '*'".to_string()]
    );
    assert_eq!(
        parse_chart("=== **Unclosed").unwrap_err().errors,
        vec!["line 1, column 5: unclosed bold marker '**'".to_string()]
    );
    assert_eq!(
        parse_chart("=== ***Unclosed").unwrap_err().errors,
        vec!["line 1, column 5: unclosed bold-italic marker '***'".to_string()]
    );
}

#[test]
fn unclosed_marker_is_reported_where_it_opens() {
    assert_eq!(fault_of("- <ok **bold** >then *open"), Fault { offset: 21, kind: ErrorKind::UnclosedItalic });
    assert_eq!(fault_of("- ***abc**"), Fault { offset: 2, kind: ErrorKind::UnclosedBoldItalic });
    assert_eq!(fault_of("- **abc*"), Fault { offset: 2, kind: ErrorKind::UnclosedBold });
    assert_eq!(fault_of("- ****"), Fault { offset: 2, kind: ErrorKind::UnclosedBoldItalic });
    assert_eq!(fault_of("- **"), Fault { offset: 2, kind: ErrorKind::UnclosedBold });
}

#[test]
fn italic_text_holds_no_column_marker() {
    assert_eq!(fault_of("- *a<b*"), Fault { offset: 2, kind: ErrorKind::UnclosedItalic });
    assert_eq!(fault_of("- *a>b*"), Fault { offset: 2, kind: ErrorKind::UnclosedItalic });
    let line = line_of("- **a<b** ***c>d***");
    assert_eq!(
        line.left,
        vec![TextSpan::new("a<b", TextStyle::Bold), TextSpan::new("c>d", TextStyle::BoldItalic)]
    );
}

#[test]
fn styled_span_of_white_space_fails() {
    assert_eq!(fault_of("- ** **"), Fault { offset: 2, kind: ErrorKind::EmptySpan });
    assert_eq!(fault_of("- * *"), Fault { offset: 2, kind: ErrorKind::EmptySpan });
    assert_eq!(fault_of("- ***\t ***"), Fault { offset: 2, kind: ErrorKind::EmptySpan });
    assert_eq!(fault_of("- ******"), Fault { offset: 2, kind: ErrorKind::EmptySpan });
    assert_eq!(
        parse_chart("- text ** **").unwrap_err().errors,
        vec!["line 1, column 8: empty styled span".to_string()]
    );
}

#[test]
fn center_without_left_fails() {
    assert_eq!(fault_of("= <>Center only"), Fault { offset: 2, kind: ErrorKind::CenterWithoutLeft });
    let error = parse_chart("= <>Center only").unwrap_err();
    assert_eq!(error.errors, vec!["line 1, column 3: center column without left marker".to_string()]);
    assert!(error.errors[0].contains("without left"));
    assert_eq!(fault_of("= <>c >r"), Fault { offset: 2, kind: ErrorKind::CenterWithoutLeft });
}

#[test]
fn missing_level_marker_fails() {
    assert_eq!(fault_of("This line has no level marker"), Fault { offset: 0, kind: ErrorKind::MissingLevelMarker });
    assert_eq!(fault_of("   <x"), Fault { offset: 3, kind: ErrorKind::MissingLevelMarker });
    assert_eq!(
        parse_chart("oops").unwrap_err().errors,
        vec!["line 1, column 1: missing level marker: expected '===', '==', '=' or '-'".to_string()]
    );
}

#[test]
fn column_marker_out_of_place_fails() {
    assert_eq!(fault_of("-Left column >right column"), Fault { offset: 13, kind: ErrorKind::MisplacedColumnMarker });
    assert_eq!(fault_of("- <a <b"), Fault { offset: 5, kind: ErrorKind::MisplacedColumnMarker });
    assert_eq!(fault_of("- <a >b <>c"), Fault { offset: 8, kind: ErrorKind::MisplacedColumnMarker });
    assert_eq!(fault_of("- >a >b"), Fault { offset: 5, kind: ErrorKind::MisplacedColumnMarker });
    assert_eq!(fault_of("- a <>b"), Fault { offset: 4, kind: ErrorKind::MisplacedColumnMarker });
    assert_eq!(
        parse_chart("- >a >b").unwrap_err().errors,
        vec!["line 1, column 6: unexpected column marker".to_string()]
    );
}

#[test]
fn line_without_markers_is_its_left_column() {
    let line = line_of("- plain text");
    assert_eq!(line.level, LineLevel::Text);
    assert_eq!(line.left, vec![TextSpan::plain("plain text")]);
    assert!(line.center.is_empty());
    assert!(line.right.is_empty());
}

#[test]
fn lines_come_in_the_order_of_the_text() {
    let chart = parse_chart("=== a\n== b\n= c\n- d").unwrap();
    let levels: Vec<LineLevel> = chart.lines.iter().map(|l| l.level).collect();
    assert_eq!(
        levels,
        vec![LineLevel::Header1, LineLevel::Header2, LineLevel::Header3, LineLevel::Text]
    );
    let lefts: Vec<&str> = chart.lines.iter().map(|l| l.left[0].text.as_str()).collect();
    assert_eq!(lefts, vec!["a", "b", "c", "d"]);
}

#[test]
fn styles_in_one_column() {
    let line = line_of("- Normal **bold**");
    assert_eq!(line.left, vec![TextSpan::plain("Normal"), TextSpan::new("bold", TextStyle::Bold)]);
    let line = line_of("- <*i* **b** ***bi*** n");
    assert_eq!(
        line.left,
        vec![
            TextSpan::new("i", TextStyle::Italic),
            TextSpan::new("b", TextStyle::Bold),
            TextSpan::new("bi", TextStyle::BoldItalic),
            TextSpan::plain("n"),
        ]
    );
}

#[test]
fn styled_text_is_trimmed() {
    let line = line_of("- **  bold text \t**");
    assert_eq!(line.left, vec![TextSpan::new("bold text", TextStyle::Bold)]);
}

#[test]
fn closing_marker_takes_as_many_asterisks_as_the_opening() {
    let line = line_of("- **a*** b*");
    assert_eq!(line.left, vec![TextSpan::new("a", TextStyle::Bold), TextSpan::new("b", TextStyle::Italic)]);
}

#[test]
fn blank_input_is_an_empty_chart() {
    for input in ["", "\n", "   ", "\n\n  \t\n \r\n", "\u{a0}\n\u{3000}"] {
        let chart = parse_chart(input).unwrap();
        assert_eq!(chart, Chart::new(vec![]));
    }
}

#[test]
fn blank_lines_between_lines_are_passed_over() {
    let chart = parse_chart("\n\n= a\n\n   \n- b\n\n").unwrap();
    assert_eq!(chart.lines.len(), 2);
    assert_eq!(chart.lines[0], Line::new(LineLevel::Header3, vec![TextSpan::plain("a")], vec![], vec![]));
    assert_eq!(chart.lines[1], Line::new(LineLevel::Text, vec![TextSpan::plain("b")], vec![], vec![]));
}

#[test]
fn carriage_returns_are_white_space() {
    let chart = parse_chart("= a\r\n- b\r\n").unwrap();
    assert_eq!(chart.lines.len(), 2);
    assert_eq!(chart.lines[0].left, vec![TextSpan::plain("a")]);
    assert_eq!(chart.lines[1].left, vec![TextSpan::plain("b")]);
}

#[test]
fn every_flawed_line_is_reported() {
    let input = "= ok\nno marker\n\n- *open\n== <>c\n- fine\n- ** **\n- a >b";
    let errors = parse_document(input).unwrap_err();
    assert_eq!(
        errors,
        vec![
            LineError { line: 2, column: 1, kind: ErrorKind::MissingLevelMarker },
            LineError { line: 4, column: 3, kind: ErrorKind::UnclosedItalic },
            LineError { line: 5, column: 4, kind: ErrorKind::CenterWithoutLeft },
            LineError { line: 7, column: 3, kind: ErrorKind::EmptySpan },
            LineError { line: 8, column: 5, kind: ErrorKind::MisplacedColumnMarker },
        ]
    );
    let error = parse_chart(input).unwrap_err();
    assert_eq!(
        error.errors,
        vec![
            "line 2, column 1: missing level marker: expected '===', '==', '=' or '-'".to_string(),
            "line 4, column 3: unclosed italic marker '*'".to_string(),
            "line 5, column 4: center column without left marker".to_string(),
            "line 7, column 3: empty styled span".to_string(),
            "line 8, column 5: unexpected column marker".to_string(),
        ]
    );
    assert_eq!(
        error.to_string(),
        "line 2, column 1: missing level marker: expected '===', '==', '=' or '-'\n\
         line 4, column 3: unclosed italic marker '*'\n\
         line 5, column 4: center column without left marker\n\
         line 7, column 3: empty styled span\n\
         line 8, column 5: unexpected column marker\n"
    );
}

#[test]
fn styled_span_does_not_reach_over_a_line_break() {
    let errors = parse_document("- **a\n- b**").unwrap_err();
    assert_eq!(
        errors,
        vec![
            LineError { line: 1, column: 3, kind: ErrorKind::UnclosedBold },
            LineError { line: 2, column: 4, kind: ErrorKind::UnclosedBold },
        ]
    );
}

#[test]
fn line_and_column_numbers_are_decimal() {
    let mut input = String::new();
    for _ in 0..119 {
        input.push_str("- ok\n");
    }
    input.push_str("-          *x");
    let error = parse_chart(&input).unwrap_err();
    assert_eq!(error.errors, vec!["line 120, column 12: unclosed italic marker '*'".to_string()]);
    let e = LineError { line: 1000, column: 907, kind: ErrorKind::EmptySpan };
    assert_eq!(e.message(), "line 1000, column 907: empty styled span");
}

#[test]
fn parse_line_of_blank_is_none() {
    assert_eq!(parse_line(&chars("")), Ok(None));
    assert_eq!(parse_line(&chars(" \t ")), Ok(None));
}
