use openrust_core::html::html_to_spans;
use openrust_core::styled::{TextStyle, Tone};
use openrust_core::html::extract_href;
use openrust_core::html::html_to_text;



#[test]
fn strips_simple_tags() {
    assert_eq!(html_to_text("<b>hello</b>"), "hello");
    assert_eq!(html_to_text("<p>world</p>"), "world");
}

#[test]
fn decodes_entities() {
    assert_eq!(html_to_text("a &amp; b"), "a & b");
    assert_eq!(html_to_text("&lt;tag&gt;"), "<tag>");
    assert_eq!(html_to_text("&#65;"), "A");
    assert_eq!(html_to_text("&#x41;"), "A");
    assert_eq!(html_to_text("&copy; 2024"), "© 2024");
}

#[test]
fn block_tags_add_newlines() {
    let result = html_to_text("<p>one</p><p>two</p>");
    assert_eq!(result, "one\ntwo");
}

#[test]
fn nested_tags() {
    assert_eq!(html_to_text("<b>bold <i>both</i></b>"), "bold both");
}

#[test]
fn self_closing_br() {
    assert_eq!(html_to_text("a<br>b"), "a\nb");
    assert_eq!(html_to_text("a<br/>b"), "a\nb");
}

#[test]
fn unknown_tag_stripped() {
    assert_eq!(html_to_text("<foo>bar</foo>"), "bar");
}

#[test]
fn comment_skipped() {
    assert_eq!(html_to_text("a<!-- comment -->b"), "ab");
}

#[test]
fn href_values_are_extracted() {
    assert_eq!(extract_href("a href=\"https://x.y/z\" class=k"), Some("https://x.y/z".to_string()));
    assert_eq!(extract_href("a HREF = 'q.html'"), Some("q.html".to_string()));
    assert_eq!(extract_href("a href=plain>rest"), Some("plain".to_string()));
    assert_eq!(extract_href("a href=\"open"), None);
    assert_eq!(extract_href("a title=x"), None);
    assert_eq!(extract_href("a href x"), None);
    assert_eq!(extract_href("a href="), Some(String::new()));
}

fn span_parts(html: &str) -> Vec<(String, TextStyle)> {
    html_to_spans(html).into_iter().map(|s| (s.text, s.style)).collect()
}

fn style_of(tone: Tone) -> TextStyle {
    TextStyle {
        tone,
        bold: false,
        italic: false,
        crossed: false,
        underlined: false,
        dim: false,
        reversed: false,
        link: false,
    }
}

#[test]
fn spans_carry_nested_modifiers() {
    let plain = style_of(Tone::Plain);
    let bold = TextStyle { bold: true, ..plain };
    let both = TextStyle { italic: true, ..bold };
    assert_eq!(
        span_parts("a <b>bold <i>both</i></b> z"),
        vec![
            ("a ".to_string(), plain),
            ("bold ".to_string(), bold),
            ("both".to_string(), both),
            (" z".to_string(), plain),
        ]
    );
}

#[test]
fn spans_style_code_and_break_lines() {
    assert_eq!(
        span_parts("x<code>y</code><br/>w"),
        vec![
            ("x".to_string(), style_of(Tone::Plain)),
            ("y".to_string(), style_of(Tone::Tool)),
            ("\n".to_string(), style_of(Tone::Plain)),
            ("w".to_string(), style_of(Tone::Plain)),
        ]
    );
}

#[test]
fn spans_convert_scripts_and_show_links() {
    assert_eq!(span_parts("x<sup>2</sup>"), vec![("x".to_string(), style_of(Tone::Plain)), ("²".to_string(), style_of(Tone::Plain))]);
    assert_eq!(span_parts("<sub>q</sub>"), vec![("_(q)".to_string(), style_of(Tone::Plain))]);
    assert_eq!(
        span_parts("<a href=\"page.html\">site</a>"),
        vec![
            ("site".to_string(), style_of(Tone::Plain)),
            (" (page.html)".to_string(), style_of(Tone::Muted)),
        ]
    );
    // A `/` inside the opening tag marks it self-closing, so its text
    // stands alone and no target follows.
    assert_eq!(span_parts("<a href=\"https://x.org\">site</a>"), vec![("site".to_string(), style_of(Tone::Plain))]);
    assert_eq!(span_parts("a &amp; b<!-- c -->"), vec![("a & b".to_string(), style_of(Tone::Plain))]);
}
