use chord_script::model::{Chart, Line, LineLevel, TextSpan, TextStyle};
use chord_script::text::{chars_of, is_whitespace, split_at, split_words, starts_with, string_of, trim_bounds};

fn chars(s: &str) -> Vec<char> {
    s.chars().collect()
}

#[test]
fn span_builders() {
    let span = TextSpan::new("bold", TextStyle::Bold);
    assert_eq!(span.text, "bold");
    assert_eq!(span.style, TextStyle::Bold);
    let span = TextSpan::plain("Normal ");
    assert_eq!(span.text, "Normal ");
    assert_eq!(span.style, TextStyle::Normal);
}

#[test]
fn line_builders() {
    let line = Line::new(
        LineLevel::Header2,
        vec![TextSpan::plain("l")],
        vec![],
        vec![TextSpan::new("r", TextStyle::Italic)],
    );
    assert_eq!(line.level, LineLevel::Header2);
    assert_eq!(line.left, vec![TextSpan::plain("l")]);
    assert!(line.center.is_empty());
    assert_eq!(line.right, vec![TextSpan::new("r", TextStyle::Italic)]);
    let line = Line::plain_text(LineLevel::Text, "a", "b", "c");
    assert_eq!(
        line,
        Line::new(
            LineLevel::Text,
            vec![TextSpan::plain("a")],
            vec![TextSpan::plain("b")],
            vec![TextSpan::plain("c")],
        )
    );
}

#[test]
fn chart_keeps_its_lines() {
    let lines = vec![Line::plain_text(LineLevel::Header1, "a", "b", "c")];
    let chart = Chart::new(lines.clone());
    assert_eq!(chart.lines, lines);
}

#[test]
fn white_space_is_what_unicode_says() {
    for c in [' ', '\t', '\n', '\u{b}', '\u{c}', '\r', '\u{85}', '\u{a0}', '\u{1680}', '\u{2000}', '\u{200a}', '\u{2028}', '\u{2029}', '\u{202f}', '\u{205f}', '\u{3000}'] {
        assert!(is_whitespace(c));
    }
    for c in ['a', '0', '*', '<', '\u{8}', '\u{e}', '\u{200b}', '\u{feff}', '\u{1f}'] {
        assert!(!is_whitespace(c));
    }
    for n in 0..0x3100u32 {
        if let Some(c) = char::from_u32(n) {
            assert_eq!(is_whitespace(c), c.is_whitespace());
        }
    }
}

#[test]
fn trimming() {
    let v = chars("  a b \t");
    assert_eq!(trim_bounds(&v, 0, v.len()), (2, 5));
    assert_eq!(trim_bounds(&v, 3, v.len()), (4, 5));
    assert_eq!(trim_bounds(&v, 5, v.len()), (7, 7));
    assert_eq!(string_of(&v, 2, 5), "a b");
    assert_eq!(string_of(&v, 2, 5), "  a b \t".trim());
}

#[test]
fn splitting() {
    assert_eq!(split_at(&chars("a|b||c|"), '|'), vec![chars("a"), chars("b"), chars(""), chars("c"), chars("")]);
    assert_eq!(split_at(&chars(""), '\n'), vec![chars("")]);
    assert_eq!(split_at(&chars("\n"), '\n'), vec![chars(""), chars("")]);
    assert_eq!(split_words(&chars("  Dm7\tG7  C ")), vec![chars("Dm7"), chars("G7"), chars("C")]);
    assert!(split_words(&chars(" \t ")).is_empty());
    assert_eq!(chars_of("h\u{e9}llo"), chars("h\u{e9}llo"));
}

#[test]
fn prefixes() {
    assert!(starts_with(&chars("Title: x"), "Title:"));
    assert!(starts_with(&chars("Title:"), "Title:"));
    assert!(!starts_with(&chars("Title"), "Title:"));
    assert!(!starts_with(&chars("title: x"), "Title:"));
    assert!(starts_with(&chars("abc"), ""));
}
