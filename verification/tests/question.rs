use openrust_core::question::{PendingQuestion, QuestionItem, QuestionKey, QuestionOutcome};

fn item(q: &str, opts: &[&str], multiple: bool) -> QuestionItem {
    QuestionItem {
        header: "h".to_string(),
        question: q.to_string(),
        options: opts.iter().map(|o| (o.to_string(), format!("about {o}"))).collect(),
        multiple,
    }
}

#[test]
fn empty_question_list_is_refused() {
    assert!(PendingQuestion::from_items(Vec::new()).is_none());
}

#[test]
fn single_choice_answers_in_order() {
    let mut q = PendingQuestion::from_items(vec![
        item("color?", &["red", "blue"], false),
        item("size?", &["s", "m"], false),
    ])
    .unwrap();
    assert_eq!(q.row_count(), 3);
    assert_eq!(q.custom_index(), 2);
    assert!(matches!(q.handle_key(QuestionKey::Down), QuestionOutcome::Pending));
    assert!(matches!(q.handle_key(QuestionKey::Enter), QuestionOutcome::Pending));
    assert_eq!(q.current_index(), 1);
    assert_eq!(q.selected(), 0);
    q.previous();
    assert_eq!(q.selected(), 2);
    q.next();
    assert_eq!(q.selected(), 0);
    match q.handle_key(QuestionKey::Enter) {
        QuestionOutcome::Done(a) => assert_eq!(a, vec!["blue", "s"]),
        other => panic!("unexpected: {:?}", other),
    }
    assert!(q.is_done());
}

#[test]
fn multiple_choice_joins_picks_in_option_order() {
    let mut q = PendingQuestion::from_items(vec![item("pick", &["a", "b", "c"], true)]).unwrap();
    q.next();
    q.next();
    q.toggle_pick();
    assert!(q.is_picked(2));
    q.previous();
    q.previous();
    q.toggle_pick();
    q.next();
    q.toggle_pick();
    q.toggle_pick();
    assert!(!q.is_picked(1));
    match q.confirm() {
        Some(a) => assert_eq!(a, vec!["a, c"]),
        None => panic!("expected answers"),
    }
}

#[test]
fn typed_answer_and_cancel() {
    let mut q = PendingQuestion::from_items(vec![item("why?", &["x"], false)]).unwrap();
    q.next();
    assert!(matches!(q.handle_key(QuestionKey::Enter), QuestionOutcome::Pending));
    assert_eq!(q.typing(), Some(""));
    for ch in "hey".chars() {
        q.handle_key(QuestionKey::Char(ch));
    }
    q.handle_key(QuestionKey::Backspace);
    assert_eq!(q.typing(), Some("he"));
    q.handle_key(QuestionKey::Esc);
    assert_eq!(q.typing(), None);
    assert!(matches!(q.handle_key(QuestionKey::Esc), QuestionOutcome::Cancel));
    q.handle_key(QuestionKey::Enter);
    q.handle_key(QuestionKey::Char('k'));
    match q.handle_key(QuestionKey::Enter) {
        QuestionOutcome::Done(a) => assert_eq!(a, vec!["k"]),
        other => panic!("unexpected: {:?}", other),
    }
}

#[test]
fn picks_ignored_for_single_choice_and_custom_row() {
    let mut q = PendingQuestion::from_items(vec![item("one", &["a", "b"], false)]).unwrap();
    q.toggle_pick();
    assert!(!q.is_picked(0));
    let mut m = PendingQuestion::from_items(vec![item("many", &["a"], true)]).unwrap();
    m.next();
    m.handle_key(QuestionKey::Char(' '));
    assert!(!m.is_picked(1));
    m.previous();
    match m.confirm() {
        Some(a) => assert_eq!(a, vec!["a"]),
        None => panic!("expected answers"),
    }
}

fn line_texts(q: &PendingQuestion) -> Vec<String> {
    q.lines().iter().map(|l| l.iter().map(|s| s.text.as_str()).collect::<String>()).collect()
}

#[test]
fn question_box_lists_options_and_hint() {
    let mut q = PendingQuestion::from_items(vec![item("color?", &["red", "blue"], false)]).unwrap();
    assert_eq!(q.title(), " h (1/1) ");
    assert_eq!(
        line_texts(&q),
        vec![
            "color?",
            "",
            "› red",
            "      about red",
            "  blue",
            "      about blue",
            "  ✎ Type your own answer",
            "",
            "↑/↓ 移动 · Enter 选择 · Esc 取消",
        ]
    );
    let lines = q.lines();
    assert!(lines[2][0].style.bold);
    assert!(lines[1].is_empty());
    q.handle_key(QuestionKey::Up);
    q.handle_key(QuestionKey::Enter);
    q.handle_key(QuestionKey::Char('x'));
    let texts = line_texts(&q);
    assert_eq!(texts[6], "  ✎ Type your own answer");
    assert_eq!(texts[8], "  > x");
    assert_eq!(texts[10], "Enter 确认输入 · Esc 返回选项");
}

#[test]
fn multiple_choice_box_shows_pick_boxes() {
    let mut q = PendingQuestion::from_items(vec![QuestionItem {
        header: String::new(),
        question: "tools?".to_string(),
        options: vec![("a".to_string(), String::new()), ("b".to_string(), String::new())],
        multiple: true,
    }])
    .unwrap();
    assert_eq!(q.title(), " Question 1/1 ");
    q.handle_key(QuestionKey::Char(' '));
    let texts = line_texts(&q);
    assert_eq!(texts[2], "› [x] a");
    assert_eq!(texts[3], "  [ ] b");
    assert_eq!(texts[6], "↑/↓ 移动 · Enter/Space 勾选 · Done 行确认 · Esc 取消");
}
