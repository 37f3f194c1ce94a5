use openrust_core::apply_patch::{
    hunk_label, hunk_path, parse_patch, patch_failure, patch_summary, plan_patch, Hunk,
};

fn update_chunks(patch: &str) -> Vec<openrust_core::apply_patch::UpdateChunk> {
    match parse_patch(patch).unwrap().into_iter().next().unwrap() {
        Hunk::Update { chunks, .. } => chunks,
        _ => panic!("expected an update hunk"),
    }
}

#[test]
fn parses_add_file_hunk() {
    let hunks =
        parse_patch("*** Begin Patch\n*** Add File: new.txt\n+hello\n+world\n*** End Patch").unwrap();
    assert_eq!(hunks.len(), 1);
    match &hunks[0] {
        Hunk::Add { path, contents } => {
            assert_eq!(path, "new.txt");
            assert_eq!(contents, "hello\nworld");
        }
        _ => panic!("expected add"),
    }
    assert_eq!(hunk_label(&hunks[0]), "A new.txt");
    assert_eq!(openrust_core::apply_patch::add_body("hello\nworld"), "hello\nworld\n");
}

#[test]
fn parses_delete_file_hunk() {
    let hunks = parse_patch("*** Begin Patch\n*** Delete File: gone.txt\n*** End Patch").unwrap();
    assert_eq!(hunks.len(), 1);
    assert_eq!(hunk_path(&hunks[0]), "gone.txt");
    assert_eq!(hunk_label(&hunks[0]), "D gone.txt");
}

#[test]
fn update_replaces_line() {
    let chunks = update_chunks(
        "*** Begin Patch\n*** Update File: f.txt\n@@\n alpha\n-beta\n+BETA\n gamma\n*** End Patch",
    );
    let out = openrust_core::apply_patch::derive("f.txt", &chunks, "alpha\nbeta\ngamma\n").unwrap();
    assert_eq!(out, "alpha\nBETA\ngamma\n");
}

#[test]
fn rejects_text_without_markers() {
    assert_eq!(parse_patch("not a patch").err().unwrap(), "missing Begin/End markers");
    assert_eq!(
        parse_patch("*** End Patch\n*** Begin Patch").err().unwrap(),
        "missing Begin/End markers"
    );
}

#[test]
fn missing_context_reports_failure() {
    let chunks = update_chunks("*** Begin Patch\n*** Update File: f.txt\n@@\n-nope\n+yep\n*** End Patch");
    let err = openrust_core::apply_patch::derive("f.txt", &chunks, "one\ntwo\n").err().unwrap();
    assert!(err.contains("Failed to find expected lines"));
    assert_eq!(err, "Failed to find expected lines in f.txt:\nnope");
}

#[test]
fn invalid_lines_are_reported() {
    assert_eq!(
        parse_patch("*** Begin Patch\nbogus\n*** End Patch").err().unwrap(),
        "invalid patch line: bogus"
    );
    assert_eq!(
        parse_patch("*** Begin Patch\n*** Add File: a\nno plus\n*** End Patch").err().unwrap(),
        "invalid add file line: no plus"
    );
    assert_eq!(
        parse_patch("*** Begin Patch\n*** Update File: a\n*** End Patch").err().unwrap(),
        "invalid update hunk for a: expected at least one @@ chunk"
    );
    assert_eq!(
        parse_patch("*** Begin Patch\n*** Add File:   \n*** End Patch").err().unwrap(),
        "invalid add file path"
    );
}

#[test]
fn context_line_moves_search_start() {
    let chunks = update_chunks(
        "*** Begin Patch\n*** Update File: f.txt\n@@ fn b\n-x\n+y\n*** End Patch",
    );
    let out = openrust_core::apply_patch::derive("f.txt", &chunks, "fn a\nx\nfn b\nx\n").unwrap();
    assert_eq!(out, "fn a\nx\nfn b\ny\n");
    let err = openrust_core::apply_patch::derive("f.txt", &chunks, "fn a\nx\n").err().unwrap();
    assert_eq!(err, "Failed to find context 'fn b' in f.txt");
}

#[test]
fn whitespace_insensitive_match_and_append() {
    let chunks = update_chunks(
        "*** Begin Patch\n*** Update File: f.txt\n@@\n-  keep  \n+kept\n@@\n+tail\n*** End Patch",
    );
    let out = openrust_core::apply_patch::derive("f.txt", &chunks, "keep\nother").unwrap();
    assert_eq!(out, "kept\nother\ntail\n");
}

#[test]
fn move_header_is_parsed() {
    let hunks = parse_patch(
        "*** Begin Patch\n*** Update File: a.txt\n*** Move to: b.txt\n@@\n-x\n+y\n*** End Patch",
    )
    .unwrap();
    assert!(openrust_core::apply_patch::is_move(&hunks[0]));
}

#[test]
fn plan_refuses_blank_empty_and_moving_patches() {
    assert_eq!(plan_patch("  \n ").err().unwrap(), "patchText is required");
    assert!(plan_patch("nonsense").err().unwrap().starts_with("apply_patch verification failed: "));
    assert_eq!(plan_patch("*** Begin Patch\n*** End Patch").err().unwrap(), "patch rejected: empty patch");
    let moving = "*** Begin Patch\n*** Update File: a.txt\n*** Move to: b.txt\n@@\n-x\n+y\n*** End Patch";
    assert_eq!(plan_patch(moving).err().unwrap(), "apply_patch moves are not supported yet");
    let ok = "*** Begin Patch\n*** Add File: a.txt\n+hi\n*** Delete File: b.txt\n*** End Patch";
    let hunks = plan_patch(ok).unwrap();
    assert_eq!(hunks.len(), 2);
    assert_eq!(hunk_label(&hunks[0]), "A a.txt");
    assert_eq!(hunk_label(&hunks[1]), "D b.txt");
}

#[test]
fn patch_reports_name_applied_hunks() {
    let none: Vec<String> = Vec::new();
    assert_eq!(patch_failure(&none, "a.txt: gone"), "Unable to apply patch: a.txt: gone");
    let some = vec!["A a.txt".to_string(), "D b.txt".to_string()];
    assert_eq!(
        patch_failure(&some, "c.txt: gone"),
        "Patch partially applied before failing: c.txt: gone. Applied: A a.txt, D b.txt"
    );
    assert_eq!(patch_summary(&some), "Applied patch sequentially:\nA a.txt\nD b.txt");
    assert_eq!(patch_summary(&none), "Applied patch sequentially:");
}
