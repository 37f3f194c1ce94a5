use openrust_core::md_parse::render_markdown;
use openrust_core::markdown::{render_events, MarkdownBuilder, MdEvent, MdLine, MdTag, MdTagEnd, QuoteKind};
use openrust_core::styled::{TextStyle, Tone};
use openrust_core::width::ColumnAlign;

fn text(s: &str) -> MdEvent {
    MdEvent::Text(s.to_string())
}

fn line_text(line: &MdLine) -> String {
    match line {
        MdLine::Spans(spans) => spans.iter().map(|s| s.text.as_str()).collect(),
        MdLine::Code { code, .. } => code.clone(),
    }
}

fn all_text(lines: &[MdLine]) -> String {
    lines.iter().map(line_text).collect::<Vec<_>>().join("\n")
}

fn plain(tone: Tone) -> TextStyle {
    TextStyle {
        tone,
        bold: false,
        italic: false,
        crossed: false,
        underlined: false,
        dim: false,
        reversed: false,
        link: false,
    }
}

#[test]
fn heading_and_paragraph_render_in_order() {
    let lines = render_events(vec![
        MdEvent::Start(MdTag::Heading(1)),
        text("Title"),
        MdEvent::End(MdTagEnd::Heading),
        MdEvent::Start(MdTag::Paragraph),
        text("Hello world"),
        MdEvent::End(MdTagEnd::Paragraph),
    ]);
    assert_eq!(all_text(&lines), "# Title\n\nHello world");
    match &lines[0] {
        MdLine::Spans(spans) => {
            assert_eq!(spans[0].text, "# ");
            assert_eq!(spans[0].style, plain(Tone::Heading));
            assert_eq!(spans[1].style, plain(Tone::Body));
        }
        _ => panic!("heading is a line of spans"),
    }
}

#[test]
fn bullet_and_ordered_lists_get_markers() {
    let lines = render_events(vec![
        MdEvent::Start(MdTag::List(None)),
        MdEvent::Start(MdTag::Item),
        text("one"),
        MdEvent::End(MdTagEnd::Item),
        MdEvent::Start(MdTag::Item),
        text("two"),
        MdEvent::End(MdTagEnd::Item),
        MdEvent::End(MdTagEnd::List),
        MdEvent::Start(MdTag::List(Some(1))),
        MdEvent::Start(MdTag::Item),
        text("first"),
        MdEvent::End(MdTagEnd::Item),
        MdEvent::Start(MdTag::Item),
        text("second"),
        MdEvent::End(MdTagEnd::Item),
        MdEvent::End(MdTagEnd::List),
    ]);
    assert_eq!(all_text(&lines), "• one\n• two\n\n1. first\n2. second");
}

#[test]
fn nested_list_items_are_indented() {
    let lines = render_events(vec![
        MdEvent::Start(MdTag::List(None)),
        MdEvent::Start(MdTag::Item),
        text("outer"),
        MdEvent::Start(MdTag::List(Some(7))),
        MdEvent::Start(MdTag::Item),
        text("inner"),
        MdEvent::End(MdTagEnd::Item),
        MdEvent::End(MdTagEnd::List),
        MdEvent::End(MdTagEnd::Item),
        MdEvent::End(MdTagEnd::List),
    ]);
    assert_eq!(all_text(&lines), "• outer\n  7. inner");
}

#[test]
fn inline_code_link_and_emphasis_are_styled() {
    let lines = render_events(vec![
        MdEvent::Start(MdTag::Paragraph),
        text("use "),
        MdEvent::Code("cargo test".to_string()),
        text(" or "),
        MdEvent::Start(MdTag::Link("https://github.com".to_string())),
        text("GitHub"),
        MdEvent::End(MdTagEnd::Link),
        MdEvent::SoftBreak,
        MdEvent::Start(MdTag::Strikethrough),
        text("deleted"),
        MdEvent::End(MdTagEnd::Strikethrough),
        MdEvent::End(MdTagEnd::Paragraph),
    ]);
    assert_eq!(all_text(&lines), "use cargo test or GitHub (https://github.com) deleted");
    match &lines[0] {
        MdLine::Spans(spans) => {
            assert_eq!(spans[1].style, plain(Tone::Code));
            assert!(spans[3].style.link && spans[3].style.underlined);
            assert_eq!(spans[4].style, plain(Tone::Muted));
            assert!(spans[6].style.crossed);
        }
        _ => panic!("paragraph is a line of spans"),
    }
}

#[test]
fn task_markers_and_rules() {
    let lines = render_events(vec![
        MdEvent::Start(MdTag::List(None)),
        MdEvent::Start(MdTag::Item),
        MdEvent::TaskListMarker(true),
        text("done"),
        MdEvent::End(MdTagEnd::Item),
        MdEvent::Start(MdTag::Item),
        MdEvent::TaskListMarker(false),
        text("todo"),
        MdEvent::End(MdTagEnd::Item),
        MdEvent::End(MdTagEnd::List),
        MdEvent::Rule,
    ]);
    assert_eq!(all_text(&lines), "• [x] done\n• [ ] todo\n\n────────────────────────");
}

#[test]
fn block_quotes_mark_their_lines() {
    let lines = render_events(vec![
        MdEvent::Start(MdTag::BlockQuote(Some(QuoteKind::Warning))),
        MdEvent::Start(MdTag::Paragraph),
        text("careful"),
        MdEvent::End(MdTagEnd::Paragraph),
        MdEvent::End(MdTagEnd::BlockQuote),
    ]);
    assert_eq!(all_text(&lines), "[Warning]\n> careful");
}

#[test]
fn code_blocks_are_handed_on_whole() {
    let lines = render_events(vec![
        MdEvent::Start(MdTag::FencedCode("rust ignore".to_string())),
        text("fn main() {}\n"),
        MdEvent::End(MdTagEnd::CodeBlock),
    ]);
    assert_eq!(lines.len(), 1);
    match &lines[0] {
        MdLine::Code { lang, code } => {
            assert_eq!(lang.as_deref(), Some("rust"));
            assert_eq!(code, "fn main() {}\n");
        }
        _ => panic!("code block expected"),
    }
}

#[test]
fn tables_are_laid_out() {
    let lines = render_events(vec![
        MdEvent::Start(MdTag::Table(vec![ColumnAlign::Unset, ColumnAlign::Unset])),
        MdEvent::Start(MdTag::TableHead),
        MdEvent::Start(MdTag::TableCell),
        text("A"),
        MdEvent::End(MdTagEnd::TableCell),
        MdEvent::Start(MdTag::TableCell),
        text("B"),
        MdEvent::End(MdTagEnd::TableCell),
        MdEvent::End(MdTagEnd::TableHead),
        MdEvent::Start(MdTag::TableRow),
        MdEvent::Start(MdTag::TableCell),
        text(" 1 "),
        MdEvent::End(MdTagEnd::TableCell),
        MdEvent::Start(MdTag::TableCell),
        text("2"),
        MdEvent::End(MdTagEnd::TableCell),
        MdEvent::End(MdTagEnd::TableRow),
        MdEvent::End(MdTagEnd::Table),
    ]);
    assert_eq!(all_text(&lines), "A │ B\n──┼──\n1 │ 2");
    match &lines[0] {
        MdLine::Spans(spans) => assert_eq!(spans[0].style, plain(Tone::Title)),
        _ => panic!("table row is a line of spans"),
    }
}

#[test]
fn html_blocks_become_muted_text_and_metadata_is_skipped() {
    let lines = render_events(vec![
        MdEvent::Start(MdTag::MetadataBlock),
        text("title: x"),
        MdEvent::End(MdTagEnd::MetadataBlock),
        MdEvent::Start(MdTag::HtmlBlock),
        MdEvent::Html("<p>one</p><p>two</p>".to_string()),
        MdEvent::End(MdTagEnd::HtmlBlock),
    ]);
    assert_eq!(all_text(&lines), "one\ntwo");
    match &lines[1] {
        MdLine::Spans(spans) => assert_eq!(spans[0].style, plain(Tone::Muted)),
        _ => panic!("html text is a line of spans"),
    }
}

#[test]
fn math_is_rendered_as_unicode() {
    let mut b = MarkdownBuilder::new();
    b.handle(MdEvent::InlineMath("\\alpha".to_string()));
    b.handle(MdEvent::FootnoteReference("1".to_string()));
    let lines = b.finish();
    assert_eq!(all_text(&lines), "α[^1]");
}

fn rendered(md: &str) -> String {
    all_text(&render_markdown(md).unwrap())
}

#[test]
fn renders_heading_and_paragraph() {
    let text = rendered("# Title\n\nHello world");
    assert!(text.contains("# Title"));
    assert!(text.contains("Hello world"));
}

#[test]
fn renders_bullet_list() {
    let text = rendered("- one\n- two\n");
    assert!(text.contains("• one"));
    assert!(text.contains("• two"));
}

#[test]
fn renders_ordered_list_numbers() {
    let text = rendered("1. first\n2. second\n");
    assert!(text.contains("1. first"));
    assert!(text.contains("2. second"));
}

#[test]
fn highlights_fenced_code_block() {
    let lines = render_markdown("```rust\nfn main() {}\n```\n").unwrap();
    let text = all_text(&lines);
    assert!(text.contains("fn main"));
    assert!(lines.iter().any(|l| matches!(l, MdLine::Code { lang: Some(lang), .. } if lang == "rust")));
}

#[test]
fn inline_code_without_backticks() {
    let text = rendered("use `cargo test` please");
    assert!(text.contains("cargo test"));
    assert!(!text.contains("`cargo test`"));
}

#[test]
fn renders_table() {
    let text = rendered("| A | B |\n|---|---|\n| 1 | 2 |\n");
    assert!(text.contains("A"));
    assert!(text.contains("B"));
    assert!(text.contains("1"));
    assert!(text.contains("2"));
    assert!(text.contains("│"));
}

#[test]
fn renders_strikethrough() {
    let lines = render_markdown("~~deleted~~").unwrap();
    assert!(all_text(&lines).contains("deleted"));
    match &lines[0] {
        MdLine::Spans(spans) => assert!(spans.iter().any(|s| s.text == "deleted" && s.style.crossed)),
        _ => panic!("paragraph is a line of spans"),
    }
}

#[test]
fn renders_task_list() {
    let text = rendered("- [x] done\n- [ ] todo\n");
    assert!(text.contains("[x]"));
    assert!(text.contains("[ ]"));
}

#[test]
fn renders_link_with_url() {
    let text = rendered("[GitHub](https://github.com)");
    assert!(text.contains("GitHub"));
    assert!(text.contains("https://github.com"));
}

#[test]
fn parsed_quotes_math_and_rules() {
    let text = rendered("> careful\n\n$\\alpha$\n\n---\n");
    assert!(text.contains("> careful"));
    assert!(text.contains("α"));
    assert!(text.contains("────"));
}
