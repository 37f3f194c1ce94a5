
use openrust_core::agent::{
    agent_tools, retry_countdown, RunMessage, RunState, should_retry, step_action, step_progress, StreamChunk,
    TurnNext, TurnState,
};

#[test]
fn stream_gathers_text_and_calls() {
    let mut t = TurnState::new();
    t.apply(StreamChunk::TextDelta("Hel".to_string()));
    t.apply(StreamChunk::ReasoningDelta("hmm".to_string()));
    t.apply(StreamChunk::TextDelta("lo".to_string()));
    t.apply(StreamChunk::ToolCallStart { id: "a".to_string(), name: "read".to_string() });
    t.apply(StreamChunk::ToolCallDelta { id: "a".to_string(), args: "{\"path\":".to_string() });
    t.apply(StreamChunk::ToolCallStart { id: "b".to_string(), name: "grep".to_string() });
    t.apply(StreamChunk::ToolCallDelta { id: "a".to_string(), args: "\"x\"}".to_string() });
    t.apply(StreamChunk::ToolCallDelta { id: "zz".to_string(), args: "lost".to_string() });
    t.apply(StreamChunk::ToolCallEnd { id: "a".to_string() });
    assert_eq!(t.text, "Hello");
    assert_eq!(t.pending.len(), 2);
    assert_eq!(t.pending[0].2, "{\"path\":\"x\"}");
    assert_eq!(t.pending[1].2, "");
    assert_eq!(t.next_step(), TurnNext::RunTools);
}

#[test]
fn replies_without_calls_finish_or_continue() {
    let mut t = TurnState::new();
    t.apply(StreamChunk::TextDelta("  ".to_string()));
    assert_eq!(t.next_step(), TurnNext::Reply { keep_text: false, done: false });
    t.apply(StreamChunk::TextDelta("ok".to_string()));
    t.apply(StreamChunk::Finish);
    assert_eq!(t.next_step(), TurnNext::Reply { keep_text: true, done: true });
}

#[test]
fn steps_and_retries() {
    assert_eq!(step_action(true, 1, 5), None);
    assert_eq!(step_action(false, 6, 5), None);
    assert_eq!(step_action(false, 5, 5), Some(true));
    assert_eq!(step_action(false, 2, 5), Some(false));
    assert_eq!(step_progress(2, 5), "sub-agent step 2/5");
    assert!(should_retry(0, "HTTP 500"));
    assert!(!should_retry(3, "HTTP 500"));
    assert!(!should_retry(0, "HTTP 404 not found"));
    let c = retry_countdown(0, "boom");
    assert_eq!(c.len(), 4);
    assert_eq!(c[0], "sub-agent retry 1/3 in 2s — boom");
    assert_eq!(c[1], "sub-agent retry 1/3 in 2s — boom");
    assert_eq!(c[2], "sub-agent retry 1/3 in 1s — boom");
    assert_eq!(retry_countdown(2, "x").len(), 16);
}

#[test]
fn background_agents_lose_the_question_tool() {
    let presets = openrust_core::catalog::empty_preset_table();
    let with: Vec<&str> = agent_tools("all", &presets, true).iter().map(|m| m.name).collect();
    let without: Vec<&str> = agent_tools("all", &presets, false).iter().map(|m| m.name).collect();
    assert!(!with.contains(&"task"));
    assert!(!without.contains(&"question"));
    assert_eq!(with.len(), without.len() + usize::from(with.contains(&"question")));
}

fn user(text: &str) -> RunMessage {
    RunMessage { role: "user".to_string(), content: text.to_string(), tool_calls: Vec::new(), tool_call_id: None }
}

#[test]
fn replies_and_tool_results_enter_the_history() {
    let mut run = RunState::new(vec![user("go")]);
    run.begin_step(false, "Wrap up now.");
    assert_eq!(run.history.len(), 1);
    let mut turn = TurnState::new();
    turn.apply(StreamChunk::TextDelta("reading".to_string()));
    turn.apply(StreamChunk::ToolCallStart { id: "c1".to_string(), name: "read".to_string() });
    turn.apply(StreamChunk::ToolCallDelta { id: "c1".to_string(), args: "{}".to_string() });
    assert!(!run.end_reply(&turn, vec!["file text".to_string()]));
    assert_eq!(run.history.len(), 3);
    assert_eq!(run.history[1].role, "assistant");
    assert_eq!(run.history[1].tool_calls.len(), 1);
    assert_eq!(run.history[2].role, "tool");
    assert_eq!(run.history[2].content, "file text");
    assert_eq!(run.history[2].tool_call_id.as_deref(), Some("c1"));
    assert_eq!(run.last_reply, "reading");

    run.begin_step(true, "Wrap up now.");
    assert_eq!(run.history[3].content, "Wrap up now.");
    let mut blank = TurnState::new();
    blank.apply(StreamChunk::TextDelta("  ".to_string()));
    assert!(!run.end_reply(&blank, Vec::new()));
    assert_eq!(run.history.len(), 4);
    assert_eq!(run.last_reply, "reading");
    let mut done = TurnState::new();
    done.apply(StreamChunk::TextDelta("all done".to_string()));
    done.apply(StreamChunk::Finish);
    assert!(run.end_reply(&done, Vec::new()));
    assert_eq!(run.last_reply, "all done");
    assert_eq!(run.history[4].content, "all done");
}
