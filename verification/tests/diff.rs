use openrust_core::diff::{diff_lines, unified_diff, DiffTag};

#[test]
fn detects_insertions_and_deletions() {
    let out = unified_diff("a\nb\n", "a\nc\n");
    assert!(out.contains("- b"));
    assert!(out.contains("+ c"));
    assert!(out.contains("  a"));
}

#[test]
fn identical_inputs_have_no_changes() {
    let out = unified_diff("same\n", "same\n");
    assert!(!out.contains("+ same"));
    assert!(!out.contains("- same"));
}

#[test]
fn render_diff_produces_a_line_per_change() {
    let lines = diff_lines("x\n", "x\ny\n");
    assert_eq!(lines.len(), 2);
    assert_eq!(lines[0], (DiffTag::Equal, "  x".to_string()));
    assert_eq!(lines[1], (DiffTag::Insert, "+ y".to_string()));
    assert_eq!(unified_diff("a\nb\n", "a\nc\n"), "  a\n- b\n+ c");
}
