use openrust_core::search::{
    glob_report, match_ext, match_line, search_report, search_text, walk_keeps, GlobPattern,
    Matcher,
};

#[test]
fn include_filters() {
    assert!(match_ext("*", "anything"));
    assert!(match_ext("*.*", "a"));
    assert!(match_ext("*.rs", "grep.rs"));
    assert!(match_ext("./*.rs", "grep.rs"));
    assert!(!match_ext("*.rs", "grep.rsx"));
    assert!(match_ext("*.{ts,tsx}", "app.ts"));
    assert!(match_ext("*.{ts,tsx}", "view.tsx"));
    assert!(!match_ext("*.{ts,tsx}", "main.rs"));
    assert!(!match_ext("*.{ts,tsx}", "a.{ts,tsx}"));
    assert!(match_ext("*.{rs}", "lib.rs"));
    assert!(match_ext("g?ep.rs", "grep.rs"));
    assert!(!match_ext("[bad", "b"));
    assert!(GlobPattern::new("[bad").is_none());
    assert!(walk_keeps("src"));
    assert!(!walk_keeps(".git"));
    assert!(!walk_keeps("target"));
    assert!(!walk_keeps("node_modules"));
}

#[test]
fn invalid_regex_is_reported() {
    let e = Matcher::new("[bad").err().unwrap();
    assert!(!e.is_empty());
    assert!(Matcher::new("struct GrepTool").is_ok());
}

#[test]
fn matching_lines_are_reported() {
    let m = Matcher::new("fo+").unwrap();
    let found = search_text("a.rs", "foo\nbar\nxfoo\n", &m);
    assert_eq!(found, vec!["a.rs:1: foo".to_string(), "a.rs:3: xfoo".to_string()]);
    let long = "é".repeat(150);
    let shown = match_line("p", 7, &long);
    assert_eq!(shown, format!("p:7: {}...", "é".repeat(100)));
    assert_eq!(match_line("p", 1, "short"), "p:1: short");
    assert_eq!(search_report(Vec::new()), "No matches found.");
    let many: Vec<String> = (0..205).map(|i| format!("l{i}")).collect();
    let r = search_report(many);
    assert!(r.ends_with("l199\n... and 5 more"));
    assert_eq!(search_report(vec!["x".to_string(), "y".to_string()]), "x\ny");
}

#[test]
fn glob_results_are_sorted_and_capped() {
    assert_eq!(glob_report(Vec::new()), "No files matched.");
    assert_eq!(glob_report(vec!["b".to_string(), "a".to_string()]), "a\nb");
    let many: Vec<String> = (0..503).map(|i| format!("{i:04}")).collect();
    let r = glob_report(many);
    assert!(r.starts_with("0000\n0001"));
    assert!(r.ends_with("0499\n... and 3 more"));
}
