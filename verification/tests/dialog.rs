use openrust_core::dialog::{session_list_options, slash_options, Dialog, DialogKind, DialogOption, SessionSummary};
use openrust_core::styled::Tone;

fn opts(n: usize) -> Vec<DialogOption> {
    (0..n)
        .map(|i| DialogOption::new(&format!("v{i}"), &format!("L{i}"), &format!("d{i}")))
        .collect()
}

#[test]
fn selection_wraps_both_ways() {
    let mut d = Dialog::new(DialogKind::Model, "t", "desc", opts(3), 0);
    assert_eq!(d.selected_value(), Some("v0"));
    d.previous();
    assert_eq!(d.selected_value(), Some("v2"));
    d.next();
    assert_eq!(d.selected_value(), Some("v0"));
    d.next();
    d.next();
    d.next();
    assert_eq!(d.selected_value(), Some("v0"));
    d.set_selected(99);
    assert_eq!(d.selected_index(), 2);
    assert_eq!(d.title(), "t");
    assert_eq!(d.description(), "desc");
    assert_eq!(d.option_count(), 3);
    assert_eq!(d.kind(), DialogKind::Model);
    assert_eq!(d.option(1).map(|o| o.label()), Some("L1"));
    assert!(d.option(3).is_none());
}

#[test]
fn empty_dialog_has_no_value() {
    let mut d = Dialog::new(DialogKind::Theme, "t", "", Vec::new(), 5);
    assert_eq!(d.selected_index(), 0);
    d.next();
    d.previous();
    assert_eq!(d.selected_value(), None);
    assert_eq!(d.compute_offset(4), 0);
    assert_eq!(d.option_index_at(0, 4), None);
}

#[test]
fn window_follows_the_selection() {
    let mut d = Dialog::new(DialogKind::Session, "t", "", opts(20), 0);
    assert_eq!(d.compute_offset(5), 0);
    d.set_selected(10);
    assert_eq!(d.compute_offset(5), 8);
    d.set_selected(19);
    assert_eq!(d.compute_offset(5), 15);
    assert_eq!(d.compute_offset(0), 19);
    assert_eq!(d.option_index_at(0, 5), Some(15));
    assert_eq!(d.option_index_at(14, 5), Some(19));
    assert_eq!(d.option_index_at(15, 5), None);
    d.set_selected(3);
    assert_eq!(d.option_index_at(3, 2), Some(3));
    assert_eq!(d.option_index_at(6, 2), None);
    assert_eq!(d.footer_hint(), "↑/↓ 选择 · Enter 确认 · Esc 关闭");
}

#[test]
fn slash_options_filter_by_prefix() {
    let all = slash_options("");
    assert_eq!(all.len(), 14);
    assert_eq!(all[0].value(), "/thinking");
    assert_eq!(all[13].value(), "/exit");
    let found = slash_options("/t");
    let t: Vec<&str> = found.iter().map(|o| o.value()).collect();
    assert_eq!(t, vec!["/thinking", "/task", "/theme"]);
    let d = slash_options("/di");
    assert_eq!(d.len(), 1);
    assert_eq!(d[0].label(), "diff");
    assert_eq!(d[0].description(), "Show the last edit as a diff");
    assert!(slash_options("x").is_empty());
}

fn line_texts(lines: &[Vec<openrust_core::styled::StyledSpan>]) -> Vec<String> {
    lines.iter().map(|l| l.iter().map(|s| s.text.as_str()).collect()).collect()
}

#[test]
fn compact_lines_mark_the_selection() {
    let d = Dialog::new(DialogKind::Model, "t", "", opts(2), 1);
    let lines = d.compact_lines();
    assert_eq!(line_texts(&lines), vec!["  v0  d0", "› v1  d1"]);
    assert!(matches!(lines[0][0].style.tone, Tone::Dialog));
    assert!(matches!(lines[1][0].style.tone, Tone::DialogSelected));
    assert!(lines[1][0].style.bold);
    assert!(matches!(lines[1][1].style.tone, Tone::Muted));
}

#[test]
fn option_lines_show_a_window_of_blocks() {
    let d = Dialog::new(DialogKind::Session, "t", "", opts(3), 0);
    assert_eq!(line_texts(&d.option_lines(2)), vec!["› L0", "    d0", "", "  L1", "    d1", ""]);
    let d = Dialog::new(DialogKind::Session, "t", "", opts(20), 10);
    let lines = d.option_lines(4);
    assert_eq!(lines.len(), 12);
    assert_eq!(line_texts(&lines)[0], "  L8");
    assert_eq!(line_texts(&lines)[6], "› L10");
    assert!(d.option_lines(0).is_empty());
}

fn session(id: &str, title: Option<&str>, agent: Option<&str>, summary: Option<&str>, count: u64) -> SessionSummary {
    SessionSummary {
        id: id.to_string(),
        title: title.map(str::to_string),
        agent: agent.map(str::to_string),
        summary: summary.map(str::to_string),
        message_count: count,
    }
}

#[test]
fn session_options_number_and_mark_sessions() {
    let sessions = vec![
        session("s1", Some("First"), Some("build"), None, 4),
        session("s2", None, None, Some("fixing the parser"), 12),
    ];
    let opts = session_list_options(&sessions, "s2", false);
    assert_eq!(opts.len(), 2);
    assert_eq!(opts[0].value(), "s1");
    assert_eq!(opts[0].label(), "1. First");
    assert_eq!(opts[0].description(), "4 msg · build");
    assert_eq!(opts[1].label(), "● 2. s2");
    assert_eq!(opts[1].description(), "12 msg · (no agent) · fixing the parser");
    let deletable = session_list_options(&sessions, "s2", true);
    assert_eq!(deletable.len(), 1);
    assert_eq!(deletable[0].value(), "s1");
}

#[test]
fn session_descriptions_are_cut() {
    let long_summary = "abcdefghijklmnopqrstuvwxyz0123456789";
    let sessions = vec![session("s", None, Some("an-agent-with-a-long-name"), Some(long_summary), 3)];
    let opts = session_list_options(&sessions, "x", false);
    let full = format!("3 msg · an-agent-with-a-long-name · {}", &long_summary[..30]);
    assert!(full.len() > 60);
    assert_eq!(opts[0].description(), format!("{}...", &full[..57]));
    let many: Vec<SessionSummary> = (0..25).map(|i| session(&format!("s{i}"), None, None, None, 0)).collect();
    let opts = session_list_options(&many, "", false);
    assert_eq!(opts.len(), 20);
    assert_eq!(opts[19].label(), "20. s19");
}
