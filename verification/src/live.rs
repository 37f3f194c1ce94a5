//! What the session view does with the events of a running prompt: the
//! reply and the thinking as they stream in, the tool calls under way, and
//! what is saved, shown or started when a step or the prompt ends.

use vstd::prelude::*;
use crate::num::{decimal, decimal_string};
use crate::text::{str_eq, trim, trim_str};
use crate::ui_text::CacheStats;

verus! {

/// A tool call under way: its id, the tool, the input shown for it,
/// whether it runs yet, and when it was announced.
pub struct PendingCall {
    pub id: String,
    pub name: String,
    pub input: String,
    pub running: bool,
    pub started_ms: u64,
}

pub struct CallView {
    pub id: Seq<char>,
    pub name: Seq<char>,
    pub input: Seq<char>,
    pub running: bool,
    pub started_ms: u64,
}

impl View for PendingCall {
    type V = CallView;

    open spec fn view(&self) -> CallView {
        CallView {
            id: self.id@,
            name: self.name@,
            input: self.input@,
            running: self.running,
            started_ms: self.started_ms,
        }
    }
}

/// The state of a running prompt as the view keeps it.
pub struct LiveState {
    pub ai_running: bool,
    /// The status line.
    pub status: String,
    /// The reply so far.
    pub assistant: String,
    /// The thinking so far.
    pub thinking: String,
    /// When the model began to think, while it thinks.
    pub thinking_since: Option<u64>,
    /// How long it thought, once it stopped.
    pub thought_ms: Option<u64>,
    pub calls: Vec<PendingCall>,
    pub cache: CacheStats,
}

/// The state by its view.
#[verifier::ext_equal]
pub struct StateView {
    pub ai_running: bool,
    pub status: Seq<char>,
    pub assistant: Seq<char>,
    pub thinking: Seq<char>,
    pub thinking_since: Option<u64>,
    pub thought_ms: Option<u64>,
    pub calls: Seq<CallView>,
    pub hits: usize,
    pub total: usize,
    pub prompt_count: usize,
}

impl View for LiveState {
    type V = StateView;

    open spec fn view(&self) -> StateView {
        StateView {
            ai_running: self.ai_running,
            status: self.status@,
            assistant: self.assistant@,
            thinking: self.thinking@,
            thinking_since: self.thinking_since,
            thought_ms: self.thought_ms,
            calls: self.calls@.map_values(|c: PendingCall| c@),
            hits: self.cache.hits,
            total: self.cache.total,
            prompt_count: self.cache.prompt_count,
        }
    }
}

/// An event of a running prompt.
pub enum PromptEvent {
    /// More of the reply.
    AssistantDelta(String),
    /// More of the thinking.
    ThinkingDelta(String),
    /// A tool call was announced.
    ToolCallStart { id: String, name: String },
    /// A tool call began to run, with the input shown for it.
    ToolRunning { id: String, input: String },
    /// A step ended in tool calls: the reply that asked for them and the
    /// names of the tools whose results came back.
    ToolBatch { assistant: String, result_names: Vec<String> },
    /// The prompt ended, with its token counts.
    Finish { prompt_tokens: u64, cache_hit_tokens: u64 },
    /// The provider failed.
    Error(String),
    /// The user stopped the prompt.
    Aborted,
    /// A request is being retried; the message says how.
    RetryStatus(String),
    /// A progress message from the worker.
    Progress(String),
    /// A background job ended, with its message or its error.
    Done(Result<String, String>),
    /// A tool asks the user a question.
    Ask,
    /// A tool asks for permission.
    Permission,
    /// The history was compacted; `drained` messages were folded in.
    Compacted { drained: usize },
}

pub enum EventView {
    AssistantDelta(Seq<char>),
    ThinkingDelta(Seq<char>),
    ToolCallStart { id: Seq<char>, name: Seq<char> },
    ToolRunning { id: Seq<char>, input: Seq<char> },
    ToolBatch { assistant: Seq<char>, result_names: Seq<Seq<char>> },
    Finish { prompt_tokens: u64, cache_hit_tokens: u64 },
    Error(Seq<char>),
    Aborted,
    RetryStatus(Seq<char>),
    Progress(Seq<char>),
    Done(Result<Seq<char>, Seq<char>>),
    Ask,
    Permission,
    Compacted { drained: usize },
}

impl View for PromptEvent {
    type V = EventView;

    open spec fn view(&self) -> EventView {
        match self {
            PromptEvent::AssistantDelta(t) => EventView::AssistantDelta(t@),
            PromptEvent::ThinkingDelta(t) => EventView::ThinkingDelta(t@),
            PromptEvent::ToolCallStart { id, name } => EventView::ToolCallStart { id: id@, name: name@ },
            PromptEvent::ToolRunning { id, input } => EventView::ToolRunning { id: id@, input: input@ },
            PromptEvent::ToolBatch { assistant, result_names } => EventView::ToolBatch {
                assistant: assistant@,
                result_names: result_names@.map_values(|n: String| n@),
            },
            PromptEvent::Finish { prompt_tokens, cache_hit_tokens } => EventView::Finish {
                prompt_tokens: *prompt_tokens,
                cache_hit_tokens: *cache_hit_tokens,
            },
            PromptEvent::Error(e) => EventView::Error(e@),
            PromptEvent::Aborted => EventView::Aborted,
            PromptEvent::RetryStatus(m) => EventView::RetryStatus(m@),
            PromptEvent::Progress(m) => EventView::Progress(m@),
            PromptEvent::Done(Ok(m)) => EventView::Done(Ok(m@)),
            PromptEvent::Done(Err(e)) => EventView::Done(Err(e@)),
            PromptEvent::Ask => EventView::Ask,
            PromptEvent::Permission => EventView::Permission,
            PromptEvent::Compacted { drained } => EventView::Compacted { drained: *drained },
        }
    }
}

/// What the view does besides changing its state, in order.
pub enum LiveEffect {
    /// Show the finished thinking as a `thought` message, with how long it
    /// took when that is known.
    ShowThought { text: String, took_ms: Option<u64> },
    /// Save a reply as an assistant message, with the step's tool calls
    /// when `with_tools`.
    SaveAssistant { text: String, with_tools: bool },
    /// Read the session's task list again.
    RefreshTasks,
    /// Record each tool result of the step, with the diff of what it
    /// changed.
    RecordToolResults,
    Note(String),
    NoteError(String),
    /// Forget the prompt's job.
    DropJob,
    /// Drop the prompts queued behind this one.
    ClearQueue,
    GenerateSummary,
    GenerateMemory,
    /// Open the question the tool asks.
    OpenQuestion,
    /// Open the permission request.
    OpenPermission,
    /// Answer the tool's question with `(non-interactive)`.
    AnswerNonInteractive,
    /// Refuse the permission request.
    DenyPermission,
    /// Read the compacted history again, `drained` messages folded in.
    ReloadCompacted(usize),
}

pub enum EffectView {
    ShowThought { text: Seq<char>, took_ms: Option<u64> },
    SaveAssistant { text: Seq<char>, with_tools: bool },
    RefreshTasks,
    RecordToolResults,
    Note(Seq<char>),
    NoteError(Seq<char>),
    DropJob,
    ClearQueue,
    GenerateSummary,
    GenerateMemory,
    OpenQuestion,
    OpenPermission,
    AnswerNonInteractive,
    DenyPermission,
    ReloadCompacted(usize),
}

pub open spec fn effect_view(e: LiveEffect) -> EffectView {
    match e {
        LiveEffect::ShowThought { text, took_ms } => EffectView::ShowThought { text: text@, took_ms: took_ms },
        LiveEffect::SaveAssistant { text, with_tools } => EffectView::SaveAssistant {
            text: text@,
            with_tools: with_tools,
        },
        LiveEffect::RefreshTasks => EffectView::RefreshTasks,
        LiveEffect::RecordToolResults => EffectView::RecordToolResults,
        LiveEffect::Note(m) => EffectView::Note(m@),
        LiveEffect::NoteError(m) => EffectView::NoteError(m@),
        LiveEffect::DropJob => EffectView::DropJob,
        LiveEffect::ClearQueue => EffectView::ClearQueue,
        LiveEffect::GenerateSummary => EffectView::GenerateSummary,
        LiveEffect::GenerateMemory => EffectView::GenerateMemory,
        LiveEffect::OpenQuestion => EffectView::OpenQuestion,
        LiveEffect::OpenPermission => EffectView::OpenPermission,
        LiveEffect::AnswerNonInteractive => EffectView::AnswerNonInteractive,
        LiveEffect::DenyPermission => EffectView::DenyPermission,
        LiveEffect::ReloadCompacted(n) => EffectView::ReloadCompacted(n),
    }
}

pub open spec fn effects_view(v: Seq<LiveEffect>) -> Seq<EffectView> {
    v.map_values(|e: LiveEffect| effect_view(e))
}

/// Milliseconds from `since` to `now`, none when the clock went back.
pub open spec fn elapsed_ms(now: u64, since: u64) -> u64 {
    if now >= since {
        (now - since) as u64
    } else {
        0
    }
}

/// How long the model thought, as known at `now`.
pub open spec fn thought_at(s: StateView, now: u64) -> Option<u64> {
    match s.thinking_since {
        Some(t) => Some(elapsed_ms(now, t)),
        None => s.thought_ms,
    }
}

/// The thinking ends: it is shown as a `thought` message when `show` and
/// there is more than white space of it, then forgotten with its clock.
pub open spec fn flushed(s: StateView, now: u64, show: bool) -> (StateView, Seq<EffectView>) {
    let fx = if show && trim(s.thinking).len() > 0 {
        seq![EffectView::ShowThought { text: s.thinking, took_ms: thought_at(s, now) }]
    } else {
        seq![]
    };
    (StateView { thinking: seq![], thinking_since: None, thought_ms: None, ..s }, fx)
}

/// The reply so far is saved, trimmed, unless it is only white space.
pub open spec fn reply_saved(s: StateView) -> Seq<EffectView> {
    if trim(s.assistant).len() > 0 {
        seq![EffectView::SaveAssistant { text: trim(s.assistant), with_tools: false }]
    } else {
        seq![]
    }
}

/// The last tool call with id `id` among the first `k`.
pub open spec fn last_call(calls: Seq<CallView>, id: Seq<char>, k: int) -> Option<int>
    decreases k,
{
    if k <= 0 || k > calls.len() {
        None
    } else if calls[k - 1].id == id {
        Some(k - 1)
    } else {
        last_call(calls, id, k - 1)
    }
}

/// The state and effects after a prompt event at `now`; `show` is whether
/// thinking is shown.
pub open spec fn live_step(s: StateView, ev: EventView, now: u64, show: bool) -> (StateView, Seq<EffectView>) {
    match ev {
        EventView::AssistantDelta(t) => (
            StateView {
                thought_ms: thought_at(s, now),
                thinking_since: None,
                assistant: s.assistant + t,
                status: "AI running"@,
                ..s
            },
            seq![],
        ),
        EventView::ThinkingDelta(t) => (
            StateView {
                thinking_since: if s.thinking_since is None {
                    Some(now)
                } else {
                    s.thinking_since
                },
                thinking: s.thinking + t,
                status: "AI thinking"@,
                ..s
            },
            seq![],
        ),
        EventView::ToolCallStart { id, name } => (
            StateView {
                calls: s.calls.push(CallView { id: id, name: name, input: seq![], running: false, started_ms: now }),
                status: "tool call: "@ + name,
                ..s
            },
            seq![],
        ),
        EventView::ToolRunning { id, input } => match last_call(s.calls, id, s.calls.len() as int) {
            Some(k) => (
                StateView { calls: s.calls.update(k, CallView { running: true, input: input, ..s.calls[k] }), ..s },
                seq![],
            ),
            None => (s, seq![]),
        },
        EventView::ToolBatch { assistant, result_names } => {
            let (f, fx) = flushed(StateView { calls: seq![], ..s }, now, show);
            (
                StateView {
                    assistant: seq![],
                    status: "tool results: "@ + decimal(result_names.len()) + " tools"@,
                    ..f
                },
                fx + seq![EffectView::SaveAssistant { text: assistant, with_tools: true }] + (if result_names.contains(
                    "todowrite"@,
                ) {
                    seq![EffectView::RefreshTasks]
                } else {
                    seq![]
                }) + seq![EffectView::RecordToolResults],
            )
        },
        EventView::Finish { prompt_tokens, cache_hit_tokens } => {
            let (f, fx) = flushed(s, now, show);
            (
                StateView {
                    prompt_count: if s.prompt_count < usize::MAX {
                        (s.prompt_count + 1) as usize
                    } else {
                        s.prompt_count
                    },
                    total: prompt_tokens as usize,
                    hits: cache_hit_tokens as usize,
                    ai_running: false,
                    status: "Ready"@,
                    assistant: seq![],
                    ..f
                },
                fx + reply_saved(f) + seq![
                    EffectView::DropJob,
                    EffectView::GenerateSummary,
                    EffectView::GenerateMemory,
                ],
            )
        },
        EventView::Error(e) => (
            StateView {
                calls: seq![],
                ai_running: false,
                assistant: seq![],
                thinking: seq![],
                thinking_since: None,
                thought_ms: None,
                ..s
            },
            seq![
                EffectView::NoteError("provider error: "@ + e),
                EffectView::DropJob,
                EffectView::GenerateSummary,
            ],
        ),
        EventView::Aborted => {
            let (f, fx) = flushed(s, now, show);
            (
                StateView { calls: seq![], ai_running: false, assistant: seq![], ..f },
                fx + reply_saved(f) + seq![
                    EffectView::DropJob,
                    EffectView::ClearQueue,
                    EffectView::Note("aborted"@),
                    EffectView::GenerateSummary,
                ],
            )
        },
        EventView::RetryStatus(m) => (StateView { status: m, ..s }, seq![]),
        EventView::Progress(m) => (
            if s.ai_running {
                StateView { status: m, ..s }
            } else {
                s
            },
            seq![],
        ),
        EventView::Done(res) => (
            s,
            match res {
                Ok(m) => if m.len() > 0 {
                    seq![EffectView::Note(m)]
                } else {
                    seq![]
                },
                Err(e) => seq![EffectView::NoteError(e)],
            },
        ),
        EventView::Ask => (s, seq![EffectView::OpenQuestion]),
        EventView::Permission => (s, seq![EffectView::OpenPermission]),
        EventView::Compacted { drained } => (s, seq![EffectView::ReloadCompacted(drained)]),
    }
}

/// A headless run (no terminal to ask on) takes in an event at `now`:
/// questions are answered `(non-interactive)` and permissions refused;
/// tool calls are not tracked, only named in the status; an error or an
/// abort ends the run without saving the reply. The flag says whether the
/// run ended.
pub open spec fn headless_step(s: StateView, ev: EventView, now: u64, show: bool) -> (StateView, Seq<EffectView>, bool) {
    match ev {
        EventView::Ask => (s, seq![EffectView::AnswerNonInteractive], false),
        EventView::Permission => (s, seq![EffectView::DenyPermission], false),
        EventView::Done(_) => (s, seq![], false),
        EventView::ToolCallStart { id, name } => (StateView { status: "tool call: "@ + name, ..s }, seq![], false),
        EventView::ToolRunning { id, input } => (StateView { status: "tool running"@, ..s }, seq![], false),
        EventView::ToolBatch { assistant, result_names } => {
            let (f, fx) = flushed(s, now, show);
            (
                StateView {
                    assistant: seq![],
                    status: "tool results: "@ + decimal(result_names.len()) + " tools"@,
                    ..f
                },
                fx + seq![
                    EffectView::SaveAssistant { text: assistant, with_tools: true },
                    EffectView::RecordToolResults,
                ],
                false,
            )
        },
        EventView::Finish { prompt_tokens, cache_hit_tokens } => {
            let (t, fx) = live_step(s, ev, now, show);
            (t, fx, true)
        },
        EventView::Error(e) => (
            StateView {
                ai_running: false,
                assistant: seq![],
                thinking: seq![],
                thinking_since: None,
                thought_ms: None,
                ..s
            },
            seq![
                EffectView::NoteError("provider error: "@ + e),
                EffectView::DropJob,
                EffectView::GenerateSummary,
            ],
            true,
        ),
        EventView::Aborted => (
            StateView {
                ai_running: false,
                assistant: seq![],
                thinking: seq![],
                thinking_since: None,
                thought_ms: None,
                ..s
            },
            seq![EffectView::DropJob],
            true,
        ),
        _ => {
            let (t, fx) = live_step(s, ev, now, show);
            (t, fx, false)
        },
    }
}

fn push_effect(fx: &mut Vec<LiveEffect>, e: LiveEffect)
    ensures
        effects_view(final(fx)@) == effects_view(old(fx)@).push(effect_view(e)),
{
    fx.push(e);
    proof {
        assert(effects_view(final(fx)@) =~= effects_view(old(fx)@).push(effect_view(e)));
    }
}

/// The last call with id `id`, as `last_call` finds it.
fn find_last_call(calls: &Vec<PendingCall>, id: &str) -> (r: Option<usize>)
    ensures
        ({
            let cv = calls@.map_values(|c: PendingCall| c@);
            match r {
                Some(k) => k < calls.len() && last_call(cv, id@, calls.len() as int) == Some(k as int),
                None => last_call(cv, id@, calls.len() as int) is None,
            }
        }),
{
    let ghost cv = calls@.map_values(|c: PendingCall| c@);
    let mut k: usize = calls.len();
    while k > 0
        invariant
            cv == calls@.map_values(|c: PendingCall| c@),
            k <= calls.len(),
            last_call(cv, id@, calls.len() as int) == last_call(cv, id@, k as int),
        decreases k,
    {
        proof {
            assert(cv[k - 1] == calls@[k - 1]@);
        }
        if str_eq(calls[k - 1].id.as_str(), id) {
            return Some(k - 1);
        }
        k -= 1;
    }
    None
}

/// Whether a name among `names` is `name`.
fn any_named(names: &Vec<String>, name: &str) -> (r: bool)
    ensures
        r == names@.map_values(|n: String| n@).contains(name@),
{
    let ghost nv = names@.map_values(|n: String| n@);
    let mut i: usize = 0;
    while i < names.len()
        invariant
            nv == names@.map_values(|n: String| n@),
            i <= names.len(),
            forall|j: int| 0 <= j < i ==> nv[j] != name@,
        decreases names.len() - i,
    {
        if str_eq(names[i].as_str(), name) {
            proof {
                assert(nv[i as int] == name@);
            }
            return true;
        }
        i += 1;
    }
    false
}

fn elapsed(now: u64, since: u64) -> (r: u64)
    ensures
        r == elapsed_ms(now, since),
{
    if now >= since {
        now - since
    } else {
        0
    }
}

impl LiveState {
    /// Ends the thinking (see `flushed`).
    fn flush_thinking(&mut self, now: u64, show: bool, fx: &mut Vec<LiveEffect>)
        ensures
            final(self)@ == flushed(old(self)@, now, show).0,
            effects_view(final(fx)@) == effects_view(old(fx)@) + flushed(old(self)@, now, show).1,
    {
        let ghost s0 = self@;
        let took: Option<u64> = match self.thinking_since {
            Some(t) => Some(elapsed(now, t)),
            None => self.thought_ms,
        };
        let shown = trim_str(self.thinking.as_str());
        let ghost before = effects_view(fx@);
        let mut thinking = String::new();
        std::mem::swap(&mut thinking, &mut self.thinking);
        if show && shown.as_str().unicode_len() > 0 {
            push_effect(fx, LiveEffect::ShowThought { text: thinking, took_ms: took });
        }
        self.thinking_since = None;
        self.thought_ms = None;
        proof {
            assert(self@.calls =~= s0.calls);
            assert(self@ =~= flushed(s0, now, show).0);
            assert(effects_view(fx@) =~= before + flushed(s0, now, show).1);
        }
    }

    /// Saves the reply so far (see `reply_saved`).
    fn save_reply(&self, fx: &mut Vec<LiveEffect>)
        ensures
            effects_view(final(fx)@) == effects_view(old(fx)@) + reply_saved(self@),
    {
        let t = trim_str(self.assistant.as_str());
        if t.as_str().unicode_len() > 0 {
            push_effect(fx, LiveEffect::SaveAssistant { text: t, with_tools: false });
        }
        proof {
            assert(effects_view(fx@) =~= effects_view(old(fx)@) + reply_saved(self@));
        }
    }

    fn on_assistant_delta(&mut self, t: String, now: u64)
        ensures
            final(self)@ == live_step(old(self)@, EventView::AssistantDelta(t@), now, false).0,
    {
        let ghost s0 = self@;
        match self.thinking_since {
            Some(since) => {
                self.thought_ms = Some(elapsed(now, since));
            },
            None => {},
        }
        self.thinking_since = None;
        self.assistant.append(t.as_str());
        self.status = String::from_str("AI running");
        proof {
            assert(self@.calls =~= s0.calls);
            assert(self@ =~= live_step(s0, EventView::AssistantDelta(t@), now, false).0);
        }
    }

    fn on_thinking_delta(&mut self, t: String, now: u64)
        ensures
            final(self)@ == live_step(old(self)@, EventView::ThinkingDelta(t@), now, false).0,
    {
        let ghost s0 = self@;
        if self.thinking_since.is_none() {
            self.thinking_since = Some(now);
        }
        self.thinking.append(t.as_str());
        self.status = String::from_str("AI thinking");
        proof {
            assert(self@.calls =~= s0.calls);
            assert(self@ =~= live_step(s0, EventView::ThinkingDelta(t@), now, false).0);
        }
    }

    fn on_call_start(&mut self, id: String, name: String, now: u64)
        ensures
            final(self)@ == live_step(old(self)@, EventView::ToolCallStart { id: id@, name: name@ }, now, false).0,
    {
        let ghost s0 = self@;
        let mut status = String::from_str("tool call: ");
        status.append(name.as_str());
        let call = PendingCall { id: id, name: name, input: String::new(), running: false, started_ms: now };
        self.calls.push(call);
        self.status = status;
        proof {
            assert(self@.calls =~= s0.calls.push(call@));
            assert(self@ =~= live_step(s0, EventView::ToolCallStart { id: id@, name: name@ }, now, false).0);
        }
    }

    fn on_call_running(&mut self, id: String, input: String)
        ensures
            final(self)@ == live_step(old(self)@, EventView::ToolRunning { id: id@, input: input@ }, 0, false).0,
    {
        let ghost s0 = self@;
        match find_last_call(&self.calls, id.as_str()) {
            Some(k) => {
                let old_call = &self.calls[k];
                let call = PendingCall {
                    id: old_call.id.clone(),
                    name: old_call.name.clone(),
                    input: input,
                    running: true,
                    started_ms: old_call.started_ms,
                };
                proof {
                    assert(s0.calls[k as int] == old_call@);
                }
                self.calls.set(k, call);
                proof {
                    assert(self@.calls =~= s0.calls.update(k as int, CallView { running: true, input: input@, ..s0.calls[k as int] }));
                    assert(self@ =~= live_step(s0, EventView::ToolRunning { id: id@, input: input@ }, 0, false).0);
                }
            },
            None => {},
        }
    }
}

impl LiveState {
    fn on_batch(&mut self, assistant: String, result_names: Vec<String>, now: u64, show: bool) -> (r: Vec<LiveEffect>)
        ensures
            (final(self)@, effects_view(r@)) == live_step(
                old(self)@,
                EventView::ToolBatch { assistant: assistant@, result_names: result_names@.map_values(|n: String| n@) },
                now,
                show,
            ),
    {
        let ghost s0 = self@;
        let ghost names = result_names@.map_values(|n: String| n@);
        let mut fx: Vec<LiveEffect> = Vec::new();
        self.calls = Vec::new();
        proof {
            assert(self@ =~= StateView { calls: seq![], ..s0 });
        }
        self.flush_thinking(now, show, &mut fx);
        push_effect(&mut fx, LiveEffect::SaveAssistant { text: assistant, with_tools: true });
        if any_named(&result_names, "todowrite") {
            push_effect(&mut fx, LiveEffect::RefreshTasks);
        }
        push_effect(&mut fx, LiveEffect::RecordToolResults);
        self.assistant = String::new();
        let n = result_names.len();
        let mut status = String::from_str("tool results: ");
        status.append(decimal_string(n as u64).as_str());
        status.append(" tools");
        self.status = status;
        proof {
            assert(n as u64 as nat == names.len());
            let step = live_step(
                s0,
                EventView::ToolBatch { assistant: assistant@, result_names: names },
                now,
                show,
            );
            assert(self@ =~= step.0);
            assert(effects_view(fx@) =~= step.1);
        }
        fx
    }

    fn on_finish(&mut self, prompt_tokens: u64, cache_hit_tokens: u64, now: u64, show: bool) -> (r: Vec<LiveEffect>)
        ensures
            (final(self)@, effects_view(r@)) == live_step(
                old(self)@,
                EventView::Finish { prompt_tokens: prompt_tokens, cache_hit_tokens: cache_hit_tokens },
                now,
                show,
            ),
    {
        let ghost s0 = self@;
        let mut fx: Vec<LiveEffect> = Vec::new();
        self.flush_thinking(now, show, &mut fx);
        self.save_reply(&mut fx);
        self.cache.prompt_count = self.cache.prompt_count.saturating_add(1);
        self.cache.total = prompt_tokens as usize;
        self.cache.hits = cache_hit_tokens as usize;
        self.ai_running = false;
        self.status = String::from_str("Ready");
        self.assistant = String::new();
        push_effect(&mut fx, LiveEffect::DropJob);
        push_effect(&mut fx, LiveEffect::GenerateSummary);
        push_effect(&mut fx, LiveEffect::GenerateMemory);
        proof {
            let step = live_step(
                s0,
                EventView::Finish { prompt_tokens: prompt_tokens, cache_hit_tokens: cache_hit_tokens },
                now,
                show,
            );
            assert(self@ =~= step.0);
            assert(effects_view(fx@) =~= step.1);
        }
        fx
    }

    fn on_error(&mut self, e: String) -> (r: Vec<LiveEffect>)
        ensures
            (final(self)@, effects_view(r@)) == live_step(old(self)@, EventView::Error(e@), 0, false),
    {
        let ghost s0 = self@;
        let mut fx: Vec<LiveEffect> = Vec::new();
        let mut m = String::from_str("provider error: ");
        m.append(e.as_str());
        push_effect(&mut fx, LiveEffect::NoteError(m));
        self.calls = Vec::new();
        self.ai_running = false;
        self.assistant = String::new();
        self.thinking = String::new();
        self.thinking_since = None;
        self.thought_ms = None;
        push_effect(&mut fx, LiveEffect::DropJob);
        push_effect(&mut fx, LiveEffect::GenerateSummary);
        proof {
            let step = live_step(s0, EventView::Error(e@), 0, false);
            assert(self@ =~= step.0);
            assert(effects_view(fx@) =~= step.1);
        }
        fx
    }

    fn on_aborted(&mut self, now: u64, show: bool) -> (r: Vec<LiveEffect>)
        ensures
            (final(self)@, effects_view(r@)) == live_step(old(self)@, EventView::Aborted, now, show),
    {
        let ghost s0 = self@;
        let mut fx: Vec<LiveEffect> = Vec::new();
        self.flush_thinking(now, show, &mut fx);
        self.save_reply(&mut fx);
        self.calls = Vec::new();
        self.ai_running = false;
        self.assistant = String::new();
        push_effect(&mut fx, LiveEffect::DropJob);
        push_effect(&mut fx, LiveEffect::ClearQueue);
        push_effect(&mut fx, LiveEffect::Note(String::from_str("aborted")));
        push_effect(&mut fx, LiveEffect::GenerateSummary);
        proof {
            let step = live_step(s0, EventView::Aborted, now, show);
            assert(self@ =~= step.0);
            assert(effects_view(fx@) =~= step.1);
        }
        fx
    }

    /// Takes in an event of the running prompt at `now` (see `live_step`);
    /// `show_thinking` is whether thinking is shown. Gives back what the
    /// view does besides, in order.
    pub fn on_prompt_event(&mut self, event: PromptEvent, now: u64, show_thinking: bool) -> (r: Vec<LiveEffect>)
        ensures
            (final(self)@, effects_view(r@)) == live_step(old(self)@, event@, now, show_thinking),
    {
        match event {
            PromptEvent::AssistantDelta(t) => {
                self.on_assistant_delta(t, now);
                Vec::new()
            },
            PromptEvent::ThinkingDelta(t) => {
                self.on_thinking_delta(t, now);
                Vec::new()
            },
            PromptEvent::ToolCallStart { id, name } => {
                self.on_call_start(id, name, now);
                Vec::new()
            },
            PromptEvent::ToolRunning { id, input } => {
                self.on_call_running(id, input);
                Vec::new()
            },
            PromptEvent::ToolBatch { assistant, result_names } => self.on_batch(
                assistant,
                result_names,
                now,
                show_thinking,
            ),
            PromptEvent::Finish { prompt_tokens, cache_hit_tokens } => self.on_finish(
                prompt_tokens,
                cache_hit_tokens,
                now,
                show_thinking,
            ),
            PromptEvent::Error(e) => self.on_error(e),
            PromptEvent::Aborted => self.on_aborted(now, show_thinking),
            PromptEvent::RetryStatus(m) => {
                self.status = m;
                Vec::new()
            },
            PromptEvent::Progress(m) => {
                if self.ai_running {
                    self.status = m;
                }
                Vec::new()
            },
            PromptEvent::Done(res) => {
                let mut fx: Vec<LiveEffect> = Vec::new();
                match res {
                    Ok(m) => {
                        if m.as_str().unicode_len() > 0 {
                            push_effect(&mut fx, LiveEffect::Note(m));
                        }
                    },
                    Err(e) => push_effect(&mut fx, LiveEffect::NoteError(e)),
                }
                proof {
                    assert(effects_view(fx@) =~= live_step(old(self)@, event@, now, show_thinking).1);
                }
                fx
            },
            PromptEvent::Ask => {
                let mut fx: Vec<LiveEffect> = Vec::new();
                push_effect(&mut fx, LiveEffect::OpenQuestion);
                proof {
                    assert(effects_view(fx@) =~= seq![EffectView::OpenQuestion]);
                }
                fx
            },
            PromptEvent::Permission => {
                let mut fx: Vec<LiveEffect> = Vec::new();
                push_effect(&mut fx, LiveEffect::OpenPermission);
                proof {
                    assert(effects_view(fx@) =~= seq![EffectView::OpenPermission]);
                }
                fx
            },
            PromptEvent::Compacted { drained } => {
                let mut fx: Vec<LiveEffect> = Vec::new();
                push_effect(&mut fx, LiveEffect::ReloadCompacted(drained));
                proof {
                    assert(effects_view(fx@) =~= seq![EffectView::ReloadCompacted(drained)]);
                }
                fx
            },
        }
    }
}


impl LiveState {
    fn headless_batch(&mut self, assistant: String, n: usize, now: u64, show: bool) -> (r: Vec<LiveEffect>)
        ensures
            ({
                let (f, fx) = flushed(old(self)@, now, show);
                &&& final(self)@ == (StateView {
                    assistant: seq![],
                    status: "tool results: "@ + decimal(n as nat) + " tools"@,
                    ..f
                })
                &&& effects_view(r@) == fx + seq![
                    EffectView::SaveAssistant { text: assistant@, with_tools: true },
                    EffectView::RecordToolResults,
                ]
            }),
    {
        let ghost s0 = self@;
        let mut fx: Vec<LiveEffect> = Vec::new();
        self.flush_thinking(now, show, &mut fx);
        push_effect(&mut fx, LiveEffect::SaveAssistant { text: assistant, with_tools: true });
        push_effect(&mut fx, LiveEffect::RecordToolResults);
        self.assistant = String::new();
        let mut status = String::from_str("tool results: ");
        status.append(decimal_string(n as u64).as_str());
        status.append(" tools");
        self.status = status;
        proof {
            let (f, fe) = flushed(s0, now, show);
            assert(self@ =~= (StateView {
                assistant: seq![],
                status: "tool results: "@ + decimal(n as nat) + " tools"@,
                ..f
            }));
            assert(effects_view(fx@) =~= fe + seq![
                EffectView::SaveAssistant { text: assistant@, with_tools: true },
                EffectView::RecordToolResults,
            ]);
        }
        fx
    }

    fn headless_stop(&mut self, error: Option<String>) -> (r: Vec<LiveEffect>)
        ensures
            final(self)@ == (StateView {
                ai_running: false,
                assistant: seq![],
                thinking: seq![],
                thinking_since: None,
                thought_ms: None,
                ..old(self)@
            }),
            effects_view(r@) == match error {
                Some(e) => seq![
                    EffectView::NoteError("provider error: "@ + e@),
                    EffectView::DropJob,
                    EffectView::GenerateSummary,
                ],
                None => seq![EffectView::DropJob],
            },
    {
        let ghost s0 = self@;
        let mut fx: Vec<LiveEffect> = Vec::new();
        let is_error = error.is_some();
        match error {
            Some(e) => {
                let mut m = String::from_str("provider error: ");
                m.append(e.as_str());
                push_effect(&mut fx, LiveEffect::NoteError(m));
            },
            None => {},
        }
        self.ai_running = false;
        self.assistant = String::new();
        self.thinking = String::new();
        self.thinking_since = None;
        self.thought_ms = None;
        push_effect(&mut fx, LiveEffect::DropJob);
        if is_error {
            push_effect(&mut fx, LiveEffect::GenerateSummary);
        }
        proof {
            assert(self@.calls =~= s0.calls);
            assert(self@ =~= (StateView {
                ai_running: false,
                assistant: seq![],
                thinking: seq![],
                thinking_since: None,
                thought_ms: None,
                ..s0
            }));
            assert(effects_view(fx@) =~= match error {
                Some(e) => seq![
                    EffectView::NoteError("provider error: "@ + e@),
                    EffectView::DropJob,
                    EffectView::GenerateSummary,
                ],
                None => seq![EffectView::DropJob],
            });
        }
        fx
    }

    /// Takes in an event of a headless run at `now` (see `headless_step`):
    /// what the run does besides, in order, and whether the run ended.
    pub fn on_headless_event(&mut self, event: PromptEvent, now: u64, show_thinking: bool) -> (r: (
        Vec<LiveEffect>,
        bool,
    ))
        ensures
            ({
                let (t, fx, done) = headless_step(old(self)@, event@, now, show_thinking);
                final(self)@ == t && effects_view(r.0@) == fx && r.1 == done
            }),
    {
        match event {
            PromptEvent::Ask => {
                let mut fx: Vec<LiveEffect> = Vec::new();
                push_effect(&mut fx, LiveEffect::AnswerNonInteractive);
                proof {
                    assert(effects_view(fx@) =~= seq![EffectView::AnswerNonInteractive]);
                }
                (fx, false)
            },
            PromptEvent::Permission => {
                let mut fx: Vec<LiveEffect> = Vec::new();
                push_effect(&mut fx, LiveEffect::DenyPermission);
                proof {
                    assert(effects_view(fx@) =~= seq![EffectView::DenyPermission]);
                }
                (fx, false)
            },
            PromptEvent::Done(_) => (Vec::new(), false),
            PromptEvent::ToolCallStart { id, name } => {
                let mut st = String::from_str("tool call: ");
                st.append(name.as_str());
                self.status = st;
                (Vec::new(), false)
            },
            PromptEvent::ToolRunning { id, input } => {
                self.status = String::from_str("tool running");
                (Vec::new(), false)
            },
            PromptEvent::ToolBatch { assistant, result_names } => {
                let n = result_names.len();
                proof {
                    assert(result_names@.map_values(|x: String| x@).len() == n);
                }
                (self.headless_batch(assistant, n, now, show_thinking), false)
            },
            PromptEvent::Finish { prompt_tokens, cache_hit_tokens } => (
                self.on_finish(prompt_tokens, cache_hit_tokens, now, show_thinking),
                true,
            ),
            PromptEvent::Error(e) => (self.headless_stop(Some(e)), true),
            PromptEvent::Aborted => (self.headless_stop(None), true),
            other => (self.on_prompt_event(other, now, show_thinking), false),
        }
    }
}

} // verus!
