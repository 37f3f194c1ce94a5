use openrust_core::memory::{format_entry, MemoryEntry};
use openrust_core::todo::{assign_tasks, render_todos, todo_panel, Task, TodoInput};
use openrust_core::styled::Tone;

fn task(id: &str, title: &str) -> Task {
    Task {
        id: id.to_string(),
        agent: None,
        title: title.to_string(),
        status: "pending".to_string(),
        priority: None,
        created_at: "0".to_string(),
        updated_at: "0".to_string(),
    }
}

fn item(content: Option<&str>, status: Option<&str>, priority: Option<&str>) -> TodoInput {
    TodoInput {
        content: content.map(str::to_string),
        status: status.map(str::to_string),
        priority: priority.map(str::to_string),
    }
}

#[test]
fn known_titles_keep_ids_and_new_ones_are_numbered() {
    let existing = vec![task("3", "write tests"), task("x7", "docs"), task("5", "ship")];
    let items = vec![
        item(Some("ship"), Some("in_progress"), Some("high")),
        item(Some("new one"), None, None),
        item(Some("write tests"), Some("completed"), Some("low")),
        item(None, Some("cancelled"), None),
    ];
    let tasks = assign_tasks(&existing, &items, "12.000000001");
    let ids: Vec<&str> = tasks.iter().map(|t| t.id.as_str()).collect();
    assert_eq!(ids, vec!["5", "6", "3", "7"]);
    assert_eq!(tasks[1].status, "pending");
    assert_eq!(tasks[3].title, "");
    assert!(tasks.iter().all(|t| t.created_at == "12.000000001" && t.agent.is_none()));
    assert_eq!(
        render_todos(&tasks),
        "Updated todo list (4 items):\n[~] ship (in_progress, high)\n[ ] new one (pending, )\n[x] write tests (completed, low)\n[-]  (cancelled, )"
    );
}

#[test]
fn duplicate_titles_take_the_last_id() {
    let existing = vec![task("1", "a"), task("2", "a")];
    let tasks = assign_tasks(&existing, &vec![item(Some("a"), None, None)], "t");
    assert_eq!(tasks[0].id, "2");
    let fresh = assign_tasks(&Vec::new(), &vec![item(Some("b"), None, None)], "t");
    assert_eq!(fresh[0].id, "1");
    assert_eq!(render_todos(&Vec::new()), "Updated todo list (0 items):\n");
}

#[test]
fn memory_entries_are_listed() {
    let e = MemoryEntry { date: String::new(), content: "use rustls".to_string(), tags: Vec::new() };
    assert_eq!(format_entry(&e), "  - use rustls");
    let e = MemoryEntry {
        date: "2024-05-01".to_string(),
        content: "prefer tabs".to_string(),
        tags: vec!["style".to_string(), "confirmed".to_string()],
    };
    assert_eq!(format_entry(&e), "  - [2024-05-01] prefer tabs #style #confirmed");
}

#[test]
fn todo_panel_counts_done_tasks() {
    assert!(todo_panel(&Vec::new()).is_none());
    let mut a = task("1", "write");
    a.status = "completed".to_string();
    let mut b = task("2", "test");
    b.status = "in_progress".to_string();
    let c = task("3", "ship");
    let (title, lines) = todo_panel(&vec![a, b, c]).unwrap();
    assert_eq!(title, " TODO 1/3 ");
    let texts: Vec<&str> = lines.iter().map(|l| l.text.as_str()).collect();
    assert_eq!(texts, vec!["[x] write", "[~] test", "[ ] ship"]);
    assert!(matches!(lines[0].style.tone, Tone::Muted));
    assert!(matches!(lines[1].style.tone, Tone::Assistant));
    assert!(matches!(lines[2].style.tone, Tone::Sidebar));
}
