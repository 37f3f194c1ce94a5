use openrust_core::styled::{StyledSpan, TextStyle, Tone};
use openrust_core::wrap::{scroll_window, wrap_line_by_width};

fn style_of(tone: Tone) -> TextStyle {
    TextStyle {
        tone,
        bold: false,
        italic: false,
        crossed: false,
        underlined: false,
        dim: false,
        reversed: false,
        link: false,
    }
}

fn spans(parts: &[(&str, Tone)]) -> Vec<StyledSpan> {
    parts
        .iter()
        .map(|(t, tone)| StyledSpan { text: t.to_string(), style: style_of(*tone) })
        .collect()
}

fn texts(lines: &[Vec<StyledSpan>]) -> Vec<Vec<String>> {
    lines.iter().map(|l| l.iter().map(|s| s.text.clone()).collect()).collect()
}

#[test]
fn short_lines_are_kept_whole() {
    let line = spans(&[("abc", Tone::Plain), ("de", Tone::Body)]);
    assert_eq!(texts(&wrap_line_by_width(&line, 5)), vec![vec!["abc", "de"]]);
    assert_eq!(texts(&wrap_line_by_width(&line, 0)), vec![vec!["abc", "de"]]);
}

#[test]
fn long_lines_break_at_the_width() {
    let line = spans(&[("abcdef", Tone::Plain)]);
    assert_eq!(texts(&wrap_line_by_width(&line, 4)), vec![vec!["abcd"], vec!["ef"]]);
    let line = spans(&[("ab", Tone::Plain), ("cdef", Tone::Body)]);
    let wrapped = wrap_line_by_width(&line, 3);
    assert_eq!(texts(&wrapped), vec![vec!["ab", "c"], vec!["def"]]);
    assert_eq!(wrapped[1][0].style, style_of(Tone::Body));
}

#[test]
fn wide_characters_count_twice() {
    let line = spans(&[("日本語", Tone::Plain)]);
    assert_eq!(texts(&wrap_line_by_width(&line, 4)), vec![vec!["日本"], vec!["語"]]);
}

#[test]
fn quote_prefix_repeats_on_continuation_lines() {
    let line = spans(&[("> ", Tone::Quote), ("abcdef", Tone::Body)]);
    let wrapped = wrap_line_by_width(&line, 5);
    assert_eq!(texts(&wrapped), vec![vec!["> ", "abc"], vec!["> ", "def"]]);
    assert_eq!(wrapped[1][0].style, style_of(Tone::Quote));
}

#[test]
fn scroll_window_shows_the_bottom_rows() {
    assert_eq!(scroll_window(10, 4, 0), (6, 4));
    assert_eq!(scroll_window(10, 4, 2), (4, 4));
    assert_eq!(scroll_window(10, 4, 100), (0, 4));
    assert_eq!(scroll_window(3, 4, 0), (0, 3));
    assert_eq!(scroll_window(5, 0, 0), (4, 1));
}
