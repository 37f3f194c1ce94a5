use openrust_core::session::{session_rows, LiveTool, LiveView, RenderedMessage, SessionRow};
use openrust_core::styled::{StyledSpan, TextStyle, Tone};

fn tone_style(tone: Tone) -> TextStyle {
    TextStyle {
        tone,
        bold: false,
        italic: false,
        crossed: false,
        underlined: false,
        dim: false,
        reversed: false,
        link: false,
    }
}

fn line(text: &str) -> Vec<StyledSpan> {
    vec![StyledSpan { text: text.to_string(), style: tone_style(Tone::Plain) }]
}

fn idle() -> LiveView {
    LiveView {
        ai_running: false,
        show_thinking: true,
        thinking: String::new(),
        thinking_for: None,
        thought_for: String::new(),
        assistant: String::new(),
        spinner: '⠋',
        tools: Vec::new(),
    }
}

fn row_texts(rows: &[SessionRow]) -> Vec<String> {
    rows.iter().map(|r| r.text.clone()).collect()
}

#[test]
fn empty_session_shows_the_placeholder() {
    let rows = session_rows(&Vec::new(), &idle(), 80);
    assert_eq!(row_texts(&rows), vec!["No messages yet. Type in the input window and press Enter."]);
    assert_eq!(rows[0].message_index, 0);
    assert_eq!(rows[0].tool_message_index, None);
    assert_eq!(rows[0].spans[0].style, tone_style(Tone::Muted));
}

#[test]
fn message_rows_know_their_message() {
    let messages = vec![
        RenderedMessage { lines: vec![line("user"), line("hello")], is_tool: false },
        RenderedMessage { lines: vec![line("tool"), line("ok")], is_tool: true },
    ];
    let rows = session_rows(&messages, &idle(), 80);
    assert_eq!(row_texts(&rows), vec!["user", "hello", "tool", "ok"]);
    let idx: Vec<(usize, Option<usize>)> = rows.iter().map(|r| (r.message_index, r.tool_message_index)).collect();
    assert_eq!(idx, vec![(0, None), (0, None), (1, Some(1)), (1, Some(1))]);
}

#[test]
fn streaming_parts_follow_the_messages() {
    let messages = vec![RenderedMessage { lines: vec![line("user")], is_tool: false }];
    let mut live = idle();
    live.ai_running = true;
    live.thinking = "a\n\\alpha".to_string();
    live.thinking_for = Some("2s".to_string());
    live.assistant = "hi".to_string();
    live.tools = vec![LiveTool {
        name: "bash".to_string(),
        input: "ls".to_string(),
        running: true,
        elapsed: "1s".to_string(),
    }];
    let rows = session_rows(&messages, &live, 80);
    assert_eq!(
        row_texts(&rows),
        vec!["user", "⠋ thinking · 2s", "a", "α", "assistant", "hi", "tool", "⠋ bash  ls  [running · 1s]", ""]
    );
    let idx: Vec<usize> = rows.iter().map(|r| r.message_index).collect();
    assert_eq!(idx, vec![0, 1, 1, 1, 2, 2, 3, 3, 3]);
    assert!(rows[1].spans[1].style.bold);
    assert_eq!(rows[1].spans[1].style.tone, Tone::Thinking);
    assert_eq!(rows[4].spans[0].style.tone, Tone::Assistant);
    assert!(rows[8].spans.is_empty());
}

#[test]
fn finished_thinking_shows_how_long_it_took() {
    let mut live = idle();
    live.ai_running = true;
    live.thinking = "plan".to_string();
    live.thought_for = "3.2s".to_string();
    live.assistant = "  \n ".to_string();
    let rows = session_rows(&Vec::new(), &live, 80);
    assert_eq!(row_texts(&rows), vec!["thought: 3.2s", "plan"]);
    live.show_thinking = false;
    let rows = session_rows(&Vec::new(), &live, 80);
    assert_eq!(row_texts(&rows), vec!["No messages yet. Type in the input window and press Enter."]);
}

#[test]
fn long_tool_input_is_cut() {
    let mut live = idle();
    live.tools = vec![LiveTool {
        name: "read".to_string(),
        input: "x".repeat(130),
        running: false,
        elapsed: "0ms".to_string(),
    }];
    let rows = session_rows(&Vec::new(), &live, 400);
    assert_eq!(rows[1].text, format!("⠋ read  {}  [created · 0ms]", "x".repeat(117)));
    live.tools[0].input = "y".repeat(120);
    let rows = session_rows(&Vec::new(), &live, 400);
    assert_eq!(rows[1].text, format!("⠋ read  {}  [created · 0ms]", "y".repeat(120)));
}

#[test]
fn rows_are_wrapped_to_the_panel() {
    let messages = vec![RenderedMessage { lines: vec![line("abcdefgh")], is_tool: true }];
    let rows = session_rows(&messages, &idle(), 6);
    assert_eq!(row_texts(&rows), vec!["abcd", "efgh"]);
    assert!(rows.iter().all(|r| r.tool_message_index == Some(0)));
    let rows = session_rows(&messages, &idle(), 1);
    assert_eq!(row_texts(&rows), vec!["a", "b", "c", "d", "e", "f", "g", "h"]);
}
