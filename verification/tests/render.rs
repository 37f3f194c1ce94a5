use openrust_core::display::DisplayMessage;
use openrust_core::markdown::{MdEvent, MdLine, MdTag, MdTagEnd, render_events};
use openrust_core::render::{message_lines, message_text};
use openrust_core::styled::Tone;

fn texts(lines: &[MdLine]) -> Vec<String> {
    lines
        .iter()
        .map(|l| match l {
            MdLine::Spans(spans) => spans.iter().map(|s| s.text.as_str()).collect(),
            MdLine::Code { code, .. } => code.clone(),
        })
        .collect()
}

#[test]
fn user_message_lines_follow_the_header() {
    let m = DisplayMessage::new("user", "hello\n\nworld");
    let lines = message_lines(&m, Vec::new());
    assert_eq!(texts(&lines), vec!["user", "hello", "", "world", ""]);
    match &lines[0] {
        MdLine::Spans(spans) => {
            assert!(matches!(spans[0].style.tone, Tone::User));
            assert!(spans[0].style.bold);
        }
        _ => panic!("header is a line of spans"),
    }
    match &lines[2] {
        MdLine::Spans(spans) => assert!(spans.is_empty()),
        _ => panic!("empty line expected"),
    }
}

#[test]
fn folded_message_shows_its_first_line() {
    let m = DisplayMessage::new_collapsed("tool", "first\nsecond");
    assert_eq!(texts(&message_lines(&m, Vec::new())), vec!["tool", "▶ first  [click to expand]", ""]);
}

#[test]
fn notes_and_control_sequences_are_cleaned() {
    let m = DisplayMessage::new_with_meta("system", "a\u{1b}[31mred", "\u{1b}[1mnote".to_string());
    assert_eq!(message_text(&m), "ared");
    assert_eq!(texts(&message_lines(&m, Vec::new())), vec!["system: note", "ared", ""]);
}

#[test]
fn assistant_messages_take_their_markdown() {
    let m = DisplayMessage::new("assistant", "**hi**");
    let md = render_events(vec![
        MdEvent::Start(MdTag::Paragraph),
        MdEvent::Start(MdTag::Strong),
        MdEvent::Text("hi".to_string()),
        MdEvent::End(MdTagEnd::Strong),
        MdEvent::End(MdTagEnd::Paragraph),
    ]);
    assert_eq!(texts(&message_lines(&m, md)), vec!["assistant", "hi", ""]);
}
