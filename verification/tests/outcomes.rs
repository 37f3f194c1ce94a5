use openrust_core::outcomes::{
    command_output, edit_args_error, edit_error_message, edit_report, plan_edit, render_answers,
    rm_directory_error, rm_missing, skill_content, skill_not_found, task_result,
    unknown_agent_error, write_report, EditError,
};

#[test]
fn edits_replace_and_count() {
    let (text, n) = plan_edit("hello\nfoo bar\n", "foo bar", "baz", false).unwrap();
    assert_eq!((text.as_str(), n), ("hello\nbaz\n", 1));
    assert!(edit_report(n, "f.txt", None).contains("1 occurrence"));
    assert_eq!(plan_edit("foo\nfoo\n", "foo", "bar", false), Err(EditError::Ambiguous(2)));
    assert!(edit_error_message(EditError::Ambiguous(2), "f").contains("2 matches"));
    let (text, n) = plan_edit("foo\nfoo\n", "foo", "bar", true).unwrap();
    assert_eq!((text.as_str(), n), ("bar\nbar\n", 2));
    assert_eq!(
        edit_report(2, "/p/f.txt", Some("abc")),
        "Replaced 2 occurrences in /p/f.txt\nUndo hash: abc"
    );
    assert_eq!(plan_edit("abc", "x", "y", true), Err(EditError::NotFound));
    assert_eq!(
        edit_error_message(EditError::NotFound, "/p"),
        "oldString not found in /p. Check text and indentation."
    );
    assert_eq!(plan_edit("aaa", "aa", "b", true), Ok(("ba".to_string(), 1)));
    assert_eq!(edit_args_error("x", "x"), Some("oldString and newString must differ"));
    assert_eq!(edit_args_error("x", "y"), None);
}

#[test]
fn writes_deletes_and_commands() {
    assert_eq!(write_report(5, "/t/a", None), "Wrote 5 bytes to /t/a");
    assert_eq!(write_report(3, "/t/a", Some("h")), "Wrote 3 bytes to /t/a\nUndo hash: h");
    assert_eq!(rm_missing("x", true), Ok("x does not exist (skipped).".to_string()));
    assert_eq!(rm_missing("x", false), Err("x: not found. Use force: true to skip.".to_string()));
    assert_eq!(rm_directory_error("/d", true), None);
    assert_eq!(
        rm_directory_error("/d", false),
        Some("/d is a directory. Add recursive: true to delete.".to_string())
    );
    assert_eq!(command_output("hello\n", "", Some(0)), "hello");
    assert_eq!(command_output("", "", Some(42)), "exit code 42");
    assert_eq!(command_output("", "", None), "exit code -1");
    assert_eq!(command_output("out", "err\n", Some(1)), "out\n[stderr]\nerr");
    assert_eq!(command_output("", "boom", Some(1)), "[stderr]\nboom");
}

#[test]
fn answers_agents_and_skills() {
    let headers = vec!["color".to_string(), String::new()];
    let answers = vec!["blue".to_string()];
    assert_eq!(render_answers(&headers, &answers), "User answered:\ncolor: blue\nQ2: (no answer)");
    assert_eq!(
        unknown_agent_error("x", &vec!["general".to_string(), "plan".to_string()]),
        "task: unknown subagent_type 'x'. Available: general, plan"
    );
    assert_eq!(task_result("plan", " \n".to_string()), "[plan sub-agent finished with no textual output]");
    assert_eq!(task_result("plan", "done".to_string()), "done");
    assert_eq!(skill_content("/s/SKILL.md", "body".to_string(), ""), "body");
    assert_eq!(
        skill_content("/s/SKILL.md", "body".to_string(), "bad"),
        "[warning: frontmatter issues in /s/SKILL.md: bad]\n\nbody"
    );
    assert_eq!(skill_not_found("x", &Vec::new()), "skill 'x' not found; no skills are installed");
    assert_eq!(
        skill_not_found("x", &vec!["a".to_string(), "b".to_string()]),
        "skill 'x' not found. Available skills: a, b"
    );
}
