use openrust_core::live::{LiveEffect, LiveState, PromptEvent};
use openrust_core::ui_text::CacheStats;

fn running() -> LiveState {
    LiveState {
        ai_running: true,
        status: "Connecting model...".to_string(),
        assistant: String::new(),
        thinking: String::new(),
        thinking_since: None,
        thought_ms: None,
        calls: Vec::new(),
        cache: CacheStats { hits: 0, total: 0, prompt_count: 0 },
    }
}

#[test]
fn deltas_stream_into_the_previews() {
    let mut s = running();
    assert!(s.on_prompt_event(PromptEvent::ThinkingDelta("hm".to_string()), 100, true).is_empty());
    s.on_prompt_event(PromptEvent::ThinkingDelta("m".to_string()), 150, true);
    assert_eq!(s.thinking, "hmm");
    assert_eq!(s.thinking_since, Some(100));
    assert_eq!(s.status, "AI thinking");
    s.on_prompt_event(PromptEvent::AssistantDelta("Hi".to_string()), 400, true);
    assert_eq!(s.assistant, "Hi");
    assert_eq!(s.thinking_since, None);
    assert_eq!(s.thought_ms, Some(300));
    assert_eq!(s.status, "AI running");
}

#[test]
fn tool_calls_are_tracked_until_the_batch() {
    let mut s = running();
    s.on_prompt_event(PromptEvent::ToolCallStart { id: "a".to_string(), name: "read".to_string() }, 5, true);
    s.on_prompt_event(PromptEvent::ToolCallStart { id: "b".to_string(), name: "bash".to_string() }, 6, true);
    assert_eq!(s.status, "tool call: bash");
    s.on_prompt_event(PromptEvent::ToolRunning { id: "a".to_string(), input: "src/lib.rs".to_string() }, 7, true);
    assert!(s.calls[0].running && s.calls[0].input == "src/lib.rs" && s.calls[0].started_ms == 5);
    assert!(!s.calls[1].running);
    s.on_prompt_event(PromptEvent::ToolRunning { id: "zz".to_string(), input: "x".to_string() }, 8, true);
    assert!(!s.calls[1].running);
    s.on_prompt_event(PromptEvent::ThinkingDelta("plan".to_string()), 10, true);
    let fx = s.on_prompt_event(
        PromptEvent::ToolBatch {
            assistant: "calling".to_string(),
            result_names: vec!["read".to_string(), "todowrite".to_string()],
        },
        30,
        true,
    );
    assert!(s.calls.is_empty());
    assert_eq!(s.status, "tool results: 2 tools");
    assert!(s.thinking.is_empty());
    assert_eq!(fx.len(), 4);
    assert!(matches!(&fx[0], LiveEffect::ShowThought { text, took_ms: Some(20) } if text == "plan"));
    assert!(matches!(&fx[1], LiveEffect::SaveAssistant { text, with_tools: true } if text == "calling"));
    assert!(matches!(fx[2], LiveEffect::RefreshTasks));
    assert!(matches!(fx[3], LiveEffect::RecordToolResults));
}

#[test]
fn finish_saves_the_reply_and_counts_the_prompt() {
    let mut s = running();
    s.on_prompt_event(PromptEvent::AssistantDelta("  done \n".to_string()), 1, false);
    let fx = s.on_prompt_event(PromptEvent::Finish { prompt_tokens: 200, cache_hit_tokens: 50 }, 2, false);
    assert!(!s.ai_running);
    assert_eq!(s.status, "Ready");
    assert!(s.assistant.is_empty());
    assert_eq!((s.cache.prompt_count, s.cache.total, s.cache.hits), (1, 200, 50));
    assert_eq!(fx.len(), 4);
    assert!(matches!(&fx[0], LiveEffect::SaveAssistant { text, with_tools: false } if text == "done"));
    assert!(matches!(fx[1], LiveEffect::DropJob));
    assert!(matches!(fx[2], LiveEffect::GenerateSummary));
    assert!(matches!(fx[3], LiveEffect::GenerateMemory));
}

#[test]
fn errors_and_aborts_end_the_prompt() {
    let mut s = running();
    s.on_prompt_event(PromptEvent::ToolCallStart { id: "a".to_string(), name: "read".to_string() }, 1, true);
    let fx = s.on_prompt_event(PromptEvent::Error("timeout".to_string()), 2, true);
    assert!(!s.ai_running && s.calls.is_empty());
    assert!(matches!(&fx[0], LiveEffect::NoteError(m) if m == "provider error: timeout"));
    assert_eq!(fx.len(), 3);

    let mut s = running();
    s.on_prompt_event(PromptEvent::AssistantDelta("partial".to_string()), 1, true);
    s.on_prompt_event(PromptEvent::RetryStatus("retrying (1/3)".to_string()), 2, true);
    assert_eq!(s.status, "retrying (1/3)");
    let fx = s.on_prompt_event(PromptEvent::Aborted, 3, true);
    assert!(!s.ai_running);
    assert_eq!(fx.len(), 5);
    assert!(matches!(&fx[0], LiveEffect::SaveAssistant { text, with_tools: false } if text == "partial"));
    assert!(matches!(fx[2], LiveEffect::ClearQueue));
    assert!(matches!(&fx[3], LiveEffect::Note(m) if m == "aborted"));
}

#[test]
fn worker_events_reach_the_view() {
    let mut s = running();
    s.on_prompt_event(PromptEvent::Progress("compacting".to_string()), 1, true);
    assert_eq!(s.status, "compacting");
    s.ai_running = false;
    s.on_prompt_event(PromptEvent::Progress("late".to_string()), 2, true);
    assert_eq!(s.status, "compacting");
    let fx = s.on_prompt_event(PromptEvent::Done(Ok("saved".to_string())), 3, true);
    assert!(matches!(&fx[0], LiveEffect::Note(m) if m == "saved"));
    assert!(s.on_prompt_event(PromptEvent::Done(Ok(String::new())), 4, true).is_empty());
    let fx = s.on_prompt_event(PromptEvent::Done(Err("boom".to_string())), 5, true);
    assert!(matches!(&fx[0], LiveEffect::NoteError(m) if m == "boom"));
    assert!(matches!(s.on_prompt_event(PromptEvent::Ask, 6, true)[0], LiveEffect::OpenQuestion));
    assert!(matches!(s.on_prompt_event(PromptEvent::Permission, 7, true)[0], LiveEffect::OpenPermission));
}

#[test]
fn headless_runs_answer_for_the_user_and_stop() {
    let mut s = running();
    let (fx, done) = s.on_headless_event(PromptEvent::Ask, 1, true);
    assert!(matches!(fx[0], LiveEffect::AnswerNonInteractive) && !done);
    let (fx, _) = s.on_headless_event(PromptEvent::Permission, 1, true);
    assert!(matches!(fx[0], LiveEffect::DenyPermission));
    s.on_headless_event(PromptEvent::ToolCallStart { id: "a".to_string(), name: "read".to_string() }, 2, true);
    assert!(s.calls.is_empty());
    assert_eq!(s.status, "tool call: read");
    s.on_headless_event(PromptEvent::ToolRunning { id: "a".to_string(), input: "x".to_string() }, 3, true);
    assert_eq!(s.status, "tool running");
    let (fx, done) = s.on_headless_event(
        PromptEvent::ToolBatch { assistant: "go".to_string(), result_names: vec!["todowrite".to_string()] },
        4,
        true,
    );
    assert!(!done);
    assert_eq!(fx.len(), 2);
    assert_eq!(s.status, "tool results: 1 tools");
    let (fx, _) = s.on_headless_event(PromptEvent::Compacted { drained: 3 }, 5, true);
    assert!(matches!(fx[0], LiveEffect::ReloadCompacted(3)));
    s.on_headless_event(PromptEvent::AssistantDelta("partial".to_string()), 6, true);
    let (fx, done) = s.on_headless_event(PromptEvent::Aborted, 7, true);
    assert!(done && !s.ai_running && s.assistant.is_empty());
    assert_eq!(fx.len(), 1);
    assert!(matches!(fx[0], LiveEffect::DropJob));
}

#[test]
fn headless_finish_ends_the_run() {
    let mut s = running();
    s.on_headless_event(PromptEvent::AssistantDelta("answer".to_string()), 1, true);
    let (fx, done) = s.on_headless_event(PromptEvent::Finish { prompt_tokens: 10, cache_hit_tokens: 0 }, 2, true);
    assert!(done && !s.ai_running);
    assert!(matches!(&fx[0], LiveEffect::SaveAssistant { text, with_tools: false } if text == "answer"));
    let mut s = running();
    let (fx, done) = s.on_headless_event(PromptEvent::Error("x".to_string()), 1, true);
    assert!(done);
    assert_eq!(fx.len(), 3);
}
