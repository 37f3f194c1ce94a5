use openrust_core::ui_text::{default_status_message, home_status_message, info_line};
use openrust_core::ui_text::{
    char_column_to_byte_index, format_number, home_input_hint, init_template,
    is_retriable_error, normalize_single_line_text, read_line_span, script_lines, short_error,
    strip_terminal_controls, tool_display_preview, CacheStats,
};

#[test]
fn home_input_hint_lists_primary_actions() {
    let hint = home_input_hint();
    assert!(hint.contains("Enter"));
    assert!(hint.contains("/connect"));
    assert!(hint.contains("/models"));
    assert!(hint.contains("Esc 退出"));
}

#[test]
fn read_line_span_extracts_first_and_last_line_numbers() {
    assert_eq!(
        read_line_span("     1: foo\n     2: bar\n     3: baz"),
        Some((1, 3))
    );
    assert_eq!(
        read_line_span("   100: foo\n   101: bar\n... (50 lines remaining)"),
        Some((100, 101))
    );
    assert_eq!(read_line_span("Cannot read: nope"), None);
    assert_eq!(read_line_span("   42: only"), Some((42, 42)));
}

#[test]
fn script_loader_ignores_comments_and_blanks() {
    assert_eq!(
        script_lines("\n# comment\nhello\n\nworld\n"),
        vec!["hello".to_string(), "world".to_string()]
    );
    assert_eq!(script_lines("  a  \r\n #x\n"), vec!["a".to_string()]);
}

#[test]
fn single_line_and_columns() {
    assert_eq!(normalize_single_line_text("a\r\nb\nc"), "a  b c");
    assert_eq!(char_column_to_byte_index("héllo", 0), 0);
    assert_eq!(char_column_to_byte_index("héllo", 2), 3);
    assert_eq!(char_column_to_byte_index("héllo", 99), 6);
    assert_eq!(char_column_to_byte_index("日本", 1), 3);
    assert_eq!(char_column_to_byte_index("a😀b", 2), 5);
}

#[test]
fn control_sequences_are_stripped() {
    assert_eq!(strip_terminal_controls("plain\ttext\n"), "plain\ttext\n");
    assert_eq!(strip_terminal_controls("\x1b[31mred\x1b[0m"), "red");
    assert_eq!(strip_terminal_controls("a\x1b]0;title\x07b"), "ab");
    assert_eq!(strip_terminal_controls("a\x1b]0;t\x1b\\b"), "ab");
    assert_eq!(strip_terminal_controls("50%\r100%"), "50%100%");
    assert_eq!(strip_terminal_controls("x\x1bz"), "xz");
    assert_eq!(strip_terminal_controls("x\x1b[12"), "x");
    assert_eq!(strip_terminal_controls("c1\u{85}end"), "c1end");
}

#[test]
fn numbers_errors_and_templates() {
    assert_eq!(format_number(0), "0");
    assert_eq!(format_number(999), "999");
    assert_eq!(format_number(1000), "1,000");
    assert_eq!(format_number(1234567), "1,234,567");
    assert_eq!(format_number(1000001), "1,000,001");
    assert!(!is_retriable_error("HTTP 401 Unauthorized"));
    assert!(is_retriable_error("HTTP 429 Too Many Requests"));
    assert!(is_retriable_error("HTTP 408 Timeout"));
    assert!(is_retriable_error("HTTP 500 oops"));
    assert!(is_retriable_error("connection reset"));
    assert_eq!(short_error("first\nsecond"), "first");
    assert_eq!(short_error(""), "");
    let long = "x".repeat(60);
    assert_eq!(short_error(&long), format!("{}…", "x".repeat(47)));
    assert_eq!(short_error(&"y".repeat(50)), "y".repeat(50));
    assert_eq!(
        init_template(""),
        "Initialize this project now. Load and follow the `project-onboarding` skill."
    );
    assert_eq!(
        init_template("docs"),
        "Initialize this project now. Load and follow the `project-onboarding` skill.\n\nUser focus: docs"
    );
    let s = CacheStats { hits: 3, total: 4, prompt_count: 1 };
    assert_eq!(s.rate(), Some(75));
    let z = CacheStats { hits: 0, total: 0, prompt_count: 0 };
    assert_eq!(z.rate(), None);
}

#[test]
fn tool_previews_name_the_target() {
    assert_eq!(tool_display_preview("edit", Some("src/a.rs"), "Replaced 1 occurrence"), "edit src/a.rs");
    assert_eq!(
        tool_display_preview("read", Some("a.rs"), "     3: x\n     4: y\n... (2 lines remaining)"),
        "read a.rs L3-4"
    );
    assert_eq!(tool_display_preview("read", Some("a.rs"), "oops"), "read a.rs");
}

#[test]
fn tool_previews_without_target_show_the_first_line() {
    assert_eq!(tool_display_preview("bash", None, "ok\nmore"), "bash: ok");
    assert_eq!(tool_display_preview("bash", None, ""), "bash: ");
    let long = "é".repeat(40);
    assert_eq!(tool_display_preview("bash", None, &long), format!("bash: {}", "é".repeat(30)));
}

#[test]
fn home_status_message_reports_missing_setup() {
    assert_eq!(
        home_status_message(false, false, false),
        "Setup required: no provider configured. Type /connect to add one."
    );
    assert_eq!(home_status_message(true, false, false), "Setup required: no model selected. Type /models to choose one.");
    assert_eq!(home_status_message(true, true, false), "Setup required: API key missing. Type /connect to configure it.");
    assert_eq!(home_status_message(true, true, true), "Home: type a prompt and press Enter. Esc exits.");
}

#[test]
fn default_status_message_prefers_home_guidance_when_idle() {
    assert_eq!(
        default_status_message(false, true, "Ready", false, false, false),
        "Setup required: no provider configured. Type /connect to add one."
    );
    assert_eq!(default_status_message(true, true, "AI running", false, false, false), "AI running");
    assert_eq!(default_status_message(false, false, "Ready", true, true, true), "Enter 发送 · /exit /q /quit 退出");
}

#[test]
fn info_line_names_model_effort_and_agent() {
    assert_eq!(info_line("openai", "gpt", None, None), "model: openai/gpt  |  thinking: off  |  agent: default");
    assert_eq!(info_line("a", "b", Some("high"), Some("plan")), "model: a/b  |  thinking: high  |  agent: plan");
}
