use openrust_core::clock::{agent_session_id, create_agent_session, micros_at, now_micros, now_string, session_id_at, spinner_frame, spinner_frame_at, stamp_at, AgentKind};
use openrust_core::styled::Tone;
use openrust_core::tree::{is_in_skip_dir, keep_child, sort_children, tree_lines, TreeEntry, MAX_DEPTH, MAX_ENTRIES};

#[test]
fn skip_dirs_and_kept_children() {
    assert!(is_in_skip_dir("proj/target/debug/x"));
    assert!(is_in_skip_dir("node_modules"));
    assert!(is_in_skip_dir("a/.git/HEAD"));
    assert!(!is_in_skip_dir("src/targets/a.rs"));
    assert!(!is_in_skip_dir("src/main.rs"));
    assert!(keep_child(".env", false, 0));
    assert!(!keep_child(".env", false, 1));
    assert!(!keep_child("target", true, 0));
    assert!(keep_child("target", false, 2));
    assert_eq!((MAX_DEPTH, MAX_ENTRIES), (4, 500));
}

#[test]
fn children_sorted_dirs_first() {
    let kids = vec![
        ("b.rs".to_string(), false),
        ("src".to_string(), true),
        ("A.md".to_string(), false),
        ("docs".to_string(), true),
    ];
    let sorted = sort_children(kids);
    let names: Vec<&str> = sorted.iter().map(|c| c.0.as_str()).collect();
    assert_eq!(names, vec!["docs", "src", "A.md", "b.rs"]);
}

#[test]
fn clock_values_have_their_shape() {
    let id = agent_session_id(AgentKind::SubAgent);
    assert!(id.starts_with("sub-"));
    assert!(id[4..].chars().all(|c| c.is_ascii_digit()));
    assert!(agent_session_id(AgentKind::Background).starts_with("bg-"));
    assert!(agent_session_id(AgentKind::Main).starts_with("session-"));
    assert!(now_micros() > 1_600_000_000_000_000);
    let s = now_string();
    let (secs, nanos) = s.split_once('.').unwrap();
    assert!(secs.parse::<u64>().unwrap() > 1_600_000_000);
    assert_eq!(nanos.len(), 9);
    assert_eq!(spinner_frame_at(0), '⠋');
    assert_eq!(spinner_frame_at(150), '⠙');
    assert_eq!(spinner_frame_at(999), '⠏');
    assert_eq!(spinner_frame_at(1000), '⠋');
    assert!("⠋⠙⠹⠸⠼⠴⠦⠧⠇⠏".contains(spinner_frame()));
}

#[test]
fn agent_session_is_made_only_when_persisted() {
    let id = create_agent_session(true, true, AgentKind::SubAgent).expect("sub-agent session");
    assert!(id.starts_with("sub-"));
    assert!(create_agent_session(true, true, AgentKind::Background).unwrap().starts_with("bg-"));
    assert!(create_agent_session(false, true, AgentKind::SubAgent).is_none());
    assert!(create_agent_session(true, false, AgentKind::SubAgent).is_none());
    assert!(create_agent_session(true, true, AgentKind::Main).is_none());
}

#[test]
fn tree_lines_indent_and_mark_directories() {
    let entries = vec![
        TreeEntry { depth: 0, name: "src".to_string(), is_dir: true },
        TreeEntry { depth: 1, name: "main.rs".to_string(), is_dir: false },
    ];
    let lines = tree_lines(&entries);
    assert_eq!(lines[0].text, "src/");
    assert!(matches!(lines[0].style.tone, Tone::SidebarDir));
    assert_eq!(lines[1].text, "  main.rs");
    assert!(matches!(lines[1].style.tone, Tone::SidebarFile));
    let empty = tree_lines(&Vec::new());
    assert_eq!(empty.len(), 1);
    assert_eq!(empty[0].text, "(empty)");
    assert!(matches!(empty[0].style.tone, Tone::Muted));
}

#[test]
fn ids_and_stamps_from_a_given_time() {
    assert_eq!(micros_at(2, 345_678_999), 2_345_678);
    assert_eq!(micros_at(0, 999), 0);
    assert_eq!(session_id_at(AgentKind::SubAgent, 1_700_000_000_123_456), "sub-1700000000123456");
    assert_eq!(session_id_at(AgentKind::Background, 7), "bg-7");
    assert_eq!(session_id_at(AgentKind::Main, 0), "session-0");
    assert_eq!(stamp_at(12, 5), "12.000000005");
    assert_eq!(stamp_at(0, 123_456_789), "0.123456789");
    let a = session_id_at(AgentKind::SubAgent, micros_at(10, 1_000));
    let b = session_id_at(AgentKind::SubAgent, micros_at(10, 2_000));
    assert_ne!(a, b);
}
