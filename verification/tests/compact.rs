use openrust_core::compact::{compact_step, compaction_checkpoint, keep_count, CompactStep};

fn msgs(n: usize) -> Vec<(String, String)> {
    (0..n).map(|i| (if i % 2 == 0 { "user" } else { "assistant" }.to_string(), format!("m{i}"))).collect()
}

#[test]
fn keep_defaults_to_four_and_at_least_two() {
    assert_eq!(keep_count(None), 4);
    assert_eq!(keep_count(Some("7")), 7);
    assert_eq!(keep_count(Some("1")), 2);
    assert_eq!(keep_count(Some("0")), 2);
    assert_eq!(keep_count(Some("x")), 4);
    assert_eq!(keep_count(Some("+3")), 3);
}

#[test]
fn nothing_to_compact_and_missing_pieces() {
    assert!(matches!(compact_step(false, None, true, 4), CompactStep::Note(m) if m == "session store unavailable"));
    assert!(matches!(compact_step(true, None, true, 4), CompactStep::Note(m) if m == "failed to load session history"));
    let h = msgs(4);
    assert!(matches!(compact_step(true, Some(&h), true, 4), CompactStep::Note(m) if m == "nothing to compact"));
    let h = msgs(5);
    assert!(matches!(compact_step(true, Some(&h), false, 4), CompactStep::Note(m) if m == "no LLM available for AI compaction"));
}

#[test]
fn older_messages_are_compacted() {
    let h = msgs(5);
    match compact_step(true, Some(&h), true, 3) {
        CompactStep::Start { older_text, recent_text, system_note, note } => {
            assert_eq!(older_text, "user: m0\nassistant: m1");
            assert_eq!(recent_text, "user: m2\nassistant: m3\nuser: m4");
            assert_eq!(system_note, "compacting 2 message(s) into checkpoint...");
            assert_eq!(note, "compacting session history, keeping 3 recent message(s)");
        }
        _ => panic!("expected a compaction"),
    }
}

#[test]
fn only_a_real_summary_becomes_a_checkpoint() {
    assert_eq!(compaction_checkpoint(&Ok("  the gist \n".to_string())), Some("the gist".to_string()));
    assert_eq!(compaction_checkpoint(&Ok(" \n ".to_string())), None);
    assert_eq!(compaction_checkpoint(&Err("timeout".to_string())), None);
}
