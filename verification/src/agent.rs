//! Decisions of the sub-agent loop: which tools the sub-agent gets, how a
//! streamed reply is gathered into text and tool calls, when a step ends
//! the run, and how failed model calls are retried.

use std::collections::HashMap;
use vstd::prelude::*;
use crate::catalog::{metas_for, metas_view, preset_map, resolve_tool_names, spec_resolve_preset, SpecToolMeta, ToolMeta};
use crate::num::{decimal, decimal_string};
use crate::text::{str_eq, trim, trim_str, views};

verus! {

// ---------------------------------------------------------------------------
// Tools
// ---------------------------------------------------------------------------

/// The tools a sub-agent is given: those its spec names, without the ones
/// sub-agents never get, and without `question` when nobody can answer.
pub open spec fn spec_agent_tools(resolved: Seq<SpecToolMeta>, interactive: bool) -> Seq<SpecToolMeta>
    decreases resolved.len(),
{
    if resolved.len() == 0 {
        seq![]
    } else {
        let r = spec_agent_tools(resolved.drop_last(), interactive);
        if interactive || resolved.last().name != "question"@ {
            r.push(resolved.last())
        } else {
            r
        }
    }
}

pub fn agent_tools(spec: &str, presets: &HashMap<String, Vec<String>>, interactive: bool) -> (r: Vec<ToolMeta>)
    ensures
        metas_view(r@) == spec_agent_tools(
            metas_for(spec_resolve_preset(spec@, preset_map(*presets)), true),
            interactive,
        ),
{
    let all = resolve_tool_names(spec, presets, true);
    let ghost av = metas_view(all@);
    let mut out: Vec<ToolMeta> = Vec::new();
    let mut i: usize = 0;
    while i < all.len()
        invariant
            av == metas_view(all@),
            i <= all.len(),
            metas_view(out@) == spec_agent_tools(av.take(i as int), interactive),
        decreases all.len() - i,
    {
        proof {
            assert(av.take(i + 1).drop_last() =~= av.take(i as int));
            assert(av.take(i + 1).last() == av[i as int]);
        }
        let m = all[i];
        if interactive || !str_eq(m.name, "question") {
            let ghost before = metas_view(out@);
            out.push(m);
            proof {
                assert(metas_view(out@) =~= before.push(av[i as int]));
            }
        }
        i += 1;
    }
    proof {
        assert(av.take(all.len() as int) =~= av);
    }
    out
}

// ---------------------------------------------------------------------------
// A streamed reply
// ---------------------------------------------------------------------------

/// A piece of a streamed model reply.
pub enum StreamChunk {
    TextDelta(String),
    ReasoningDelta(String),
    ToolCallStart { id: String, name: String },
    ToolCallDelta { id: String, args: String },
    ToolCallEnd { id: String },
    Finish,
}

/// A tool call being received: its id, the tool's name, and its
/// arguments so far.
pub type PendingCall = (String, String, String);

pub open spec fn call_view(c: PendingCall) -> (Seq<char>, Seq<char>, Seq<char>) {
    (c.0@, c.1@, c.2@)
}

pub open spec fn calls_view(v: Seq<PendingCall>) -> Seq<(Seq<char>, Seq<char>, Seq<char>)> {
    v.map_values(|c: PendingCall| call_view(c))
}

/// What has been received of a reply: its text, the tool calls, and
/// whether the model said it was done.
pub struct TurnState {
    pub text: String,
    pub pending: Vec<PendingCall>,
    pub finish_seen: bool,
}

/// A reply by its view.
pub struct TurnView {
    pub text: Seq<char>,
    pub pending: Seq<(Seq<char>, Seq<char>, Seq<char>)>,
    pub finish_seen: bool,
}

impl View for TurnState {
    type V = TurnView;

    open spec fn view(&self) -> TurnView {
        TurnView { text: self.text@, pending: calls_view(self.pending@), finish_seen: self.finish_seen }
    }
}

/// The index of the last call with this id among the first `k`.
pub open spec fn last_call_with(pending: Seq<(Seq<char>, Seq<char>, Seq<char>)>, id: Seq<char>, k: int) -> Option<int>
    decreases k,
{
    if k <= 0 || k > pending.len() {
        None
    } else if pending[k - 1].0 == id {
        Some(k - 1)
    } else {
        last_call_with(pending, id, k - 1)
    }
}

/// A reply after one more chunk: text is appended, a call start opens a
/// call, argument text goes to the last call with its id (and is dropped
/// when there is none), and a finish is noted.
pub open spec fn spec_apply(s: TurnView, chunk: StreamChunk) -> TurnView {
    match chunk {
        StreamChunk::TextDelta(t) => TurnView { text: s.text + t@, ..s },
        StreamChunk::ReasoningDelta(_) => s,
        StreamChunk::ToolCallStart { id, name } => TurnView { pending: s.pending.push((id@, name@, Seq::empty())), ..s },
        StreamChunk::ToolCallDelta { id, args } => match last_call_with(s.pending, id@, s.pending.len() as int) {
            Some(k) => TurnView {
                pending: s.pending.update(k, (s.pending[k].0, s.pending[k].1, s.pending[k].2 + args@)),
                ..s
            },
            None => s,
        },
        StreamChunk::ToolCallEnd { .. } => s,
        StreamChunk::Finish => TurnView { finish_seen: true, ..s },
    }
}

/// What the loop does once a reply is complete.
#[derive(Clone, Copy, Debug, PartialEq, Eq, Structural)]
pub enum TurnNext {
    /// Run the requested tools and ask the model again.
    RunTools,
    /// No tools were requested: keep the text when it is not blank, then
    /// stop if the model said it was done, or ask again.
    Reply { keep_text: bool, done: bool },
}

impl TurnState {
    pub fn new() -> (r: Self)
        ensures
            r@ == (TurnView { text: Seq::empty(), pending: Seq::empty(), finish_seen: false }),
    {
        let r = TurnState { text: String::new(), pending: Vec::new(), finish_seen: false };
        proof {
            assert(calls_view(r.pending@) =~= Seq::<(Seq<char>, Seq<char>, Seq<char>)>::empty());
        }
        r
    }

    /// Takes in one chunk of the reply (see `spec_apply`).
    pub fn apply(&mut self, chunk: StreamChunk)
        ensures
            final(self)@ == spec_apply(old(self)@, chunk),
    {
        match chunk {
            StreamChunk::TextDelta(t) => {
                self.text.append(t.as_str());
            },
            StreamChunk::ReasoningDelta(_) => {},
            StreamChunk::ToolCallStart { id, name } => {
                let ghost before = calls_view(self.pending@);
                let c: PendingCall = (id, name, String::new());
                self.pending.push(c);
                proof {
                    assert(calls_view(self.pending@) =~= before.push(call_view(c)));
                }
            },
            StreamChunk::ToolCallDelta { id, args } => {
                let ghost pv = calls_view(self.pending@);
                let mut k = self.pending.len();
                while k > 0 && !str_eq(self.pending[k - 1].0.as_str(), id.as_str())
                    invariant
                        pv == calls_view(self.pending@),
                        k <= self.pending.len(),
                        last_call_with(pv, id@, pv.len() as int) == last_call_with(pv, id@, k as int),
                    decreases k,
                {
                    k -= 1;
                }
                if k > 0 {
                    let (cid, cname, mut cargs) = (
                        self.pending[k - 1].0.clone(),
                        self.pending[k - 1].1.clone(),
                        self.pending[k - 1].2.clone(),
                    );
                    cargs.append(args.as_str());
                    let c: PendingCall = (cid, cname, cargs);
                    self.pending.set(k - 1, c);
                    proof {
                        assert(calls_view(self.pending@) =~= pv.update(
                            k - 1,
                            (pv[k - 1].0, pv[k - 1].1, pv[k - 1].2 + args@),
                        ));
                    }
                }
            },
            StreamChunk::ToolCallEnd { .. } => {},
            StreamChunk::Finish => {
                self.finish_seen = true;
            },
        }
    }

    /// What to do with the complete reply (see `TurnNext`).
    pub fn next_step(&self) -> (r: TurnNext)
        ensures
            self@.pending.len() > 0 ==> r == TurnNext::RunTools,
            self@.pending.len() == 0 ==> r == (TurnNext::Reply {
                keep_text: trim(self@.text).len() > 0,
                done: self@.finish_seen,
            }),
    {
        if self.pending.len() > 0 {
            proof {
                assert(calls_view(self.pending@).len() == self.pending.len());
            }
            TurnNext::RunTools
        } else {
            proof {
                assert(calls_view(self.pending@).len() == self.pending.len());
            }
            TurnNext::Reply {
                keep_text: trim_str(self.text.as_str()).unicode_len() > 0,
                done: self.finish_seen,
            }
        }
    }
}

/// Argument text reaches only the last call with its id: the text, the
/// number of calls and every other call stay as they were.
pub proof fn lemma_delta_touches_one_call(s: TurnView, chunk: StreamChunk, j: int)
    requires
        0 <= j < s.pending.len(),
    ensures
        match chunk {
            StreamChunk::ToolCallDelta { id, args } => {
                let t = spec_apply(s, chunk);
                &&& t.text == s.text
                &&& t.pending.len() == s.pending.len()
                &&& last_call_with(s.pending, id@, s.pending.len() as int) != Some(j) ==> t.pending[j]
                    == s.pending[j]
            },
            _ => true,
        },
{
    match chunk {
        StreamChunk::ToolCallDelta { id, args } => {
            lemma_last_call_in_range(s.pending, id@, s.pending.len() as int);
        },
        _ => {},
    }
}

proof fn lemma_last_call_in_range(pending: Seq<(Seq<char>, Seq<char>, Seq<char>)>, id: Seq<char>, k: int)
    ensures
        last_call_with(pending, id, k) matches Some(i) ==> 0 <= i < k <= pending.len() && pending[i].0
            == id,
    decreases k,
{
    if k > 0 && k <= pending.len() && pending[k - 1].0 != id {
        lemma_last_call_in_range(pending, id, k - 1);
    }
}

// ---------------------------------------------------------------------------
// Steps and retries
// ---------------------------------------------------------------------------

/// Most retries of a failed model call.
pub const MAX_RETRIES: u32 = 3;

/// Whether a step may run, and whether it is the last one: a cancelled run
/// or a step past the limit ends the run.
pub open spec fn spec_step(cancelled: bool, step: nat, max_steps: nat) -> Option<bool> {
    if cancelled || step > max_steps {
        None
    } else {
        Some(step >= max_steps)
    }
}

pub fn step_action(cancelled: bool, step: u32, max_steps: u32) -> (r: Option<bool>)
    ensures
        r == spec_step(cancelled, step as nat, max_steps as nat),
{
    if cancelled || step > max_steps {
        None
    } else {
        Some(step >= max_steps)
    }
}

/// The progress note of a step.
pub fn step_progress(step: u32, max_steps: u32) -> (r: String)
    ensures
        r@ == "sub-agent step "@ + decimal(step as nat) + "/"@ + decimal(max_steps as nat),
{
    let mut m = String::from_str("sub-agent step ");
    m.append(decimal_string(step as u64).as_str());
    m.append("/");
    m.append(decimal_string(max_steps as u64).as_str());
    m
}

/// The wait before retry number `attempt + 1`: doubling from two seconds,
/// at most eight.
pub open spec fn retry_delay(attempt: nat) -> nat {
    if attempt == 0 {
        2
    } else if attempt == 1 {
        4
    } else {
        8
    }
}

/// Whether a failed call is tried again: retries remain and the error is
/// worth retrying.
pub fn should_retry(attempt: u32, error_message: &str) -> (r: bool)
    ensures
        r == (attempt < MAX_RETRIES && crate::ui_text::spec_is_retriable(error_message@)),
{
    attempt < MAX_RETRIES && crate::ui_text::is_retriable_error(error_message)
}

/// The countdown notes shown while waiting to retry, one per half second:
/// the retry's number, the whole seconds left (rounded up) and the error.
pub open spec fn countdown(attempt: nat, detail: Seq<char>) -> Seq<Seq<char>> {
    let total = retry_delay(attempt) * 1000;
    Seq::new(
        total / 500,
        |i: int|
            "sub-agent retry "@ + decimal(attempt + 1) + "/"@ + decimal(MAX_RETRIES as nat) + " in "@
                + decimal(((total - 500 * i) + 999) as nat / 1000) + "s — "@ + detail,
    )
}

pub fn retry_countdown(attempt: u32, detail: &str) -> (r: Vec<String>)
    requires
        attempt < MAX_RETRIES,
    ensures
        crate::text::views(r@) == countdown(attempt as nat, detail@),
{
    let delay: u64 = if attempt == 0 {
        2
    } else if attempt == 1 {
        4
    } else {
        8
    };
    let total = delay * 1000;
    let mut out: Vec<String> = Vec::new();
    let mut remaining = total;
    let mut i: u64 = 0;
    while remaining > 0
        invariant
            total == retry_delay(attempt as nat) * 1000,
            remaining == total - 500 * i,
            remaining % 500 == 0,
            attempt < MAX_RETRIES,
            crate::text::views(out@) =~= countdown(attempt as nat, detail@).take(i as int),
            i <= total / 500,
        decreases remaining,
    {
        let secs = (remaining + 999) / 1000;
        let mut m = String::from_str("sub-agent retry ");
        m.append(decimal_string((attempt + 1) as u64).as_str());
        m.append("/");
        m.append(decimal_string(MAX_RETRIES as u64).as_str());
        m.append(" in ");
        m.append(decimal_string(secs).as_str());
        m.append("s — ");
        m.append(detail);
        let ghost before = crate::text::views(out@);
        out.push(m);
        proof {
            assert(crate::text::views(out@) =~= before.push(m@));
        }
        remaining = remaining - 500;
        i = i + 1;
    }
    proof {
        assert(i == total / 500);
        assert(countdown(attempt as nat, detail@).take(i as int) =~= countdown(attempt as nat, detail@));
    }
    out
}


// ---------------------------------------------------------------------------
// The run's history
// ---------------------------------------------------------------------------

/// A message of a sub-agent's history: its role, its text, the tool
/// calls an assistant message asked for, and the call a tool message
/// answers.
pub struct RunMessage {
    pub role: String,
    pub content: String,
    pub tool_calls: Vec<PendingCall>,
    pub tool_call_id: Option<String>,
}

/// A history message by its view.
pub struct MessageView {
    pub role: Seq<char>,
    pub content: Seq<char>,
    pub tool_calls: Seq<(Seq<char>, Seq<char>, Seq<char>)>,
    pub tool_call_id: Option<Seq<char>>,
}

pub open spec fn message_view(m: RunMessage) -> MessageView {
    MessageView {
        role: m.role@,
        content: m.content@,
        tool_calls: calls_view(m.tool_calls@),
        tool_call_id: match m.tool_call_id {
            Some(i) => Some(i@),
            None => None,
        },
    }
}

pub open spec fn history_view(v: Seq<RunMessage>) -> Seq<MessageView> {
    v.map_values(|m: RunMessage| message_view(m))
}

/// A plain message of `role` with `content`.
pub open spec fn plain_message(role: Seq<char>, content: Seq<char>) -> MessageView {
    MessageView { role: role, content: content, tool_calls: seq![], tool_call_id: None }
}

/// The tool messages answering `calls` with `outputs`, in order.
pub open spec fn tool_messages(calls: Seq<(Seq<char>, Seq<char>, Seq<char>)>, outputs: Seq<Seq<char>>) -> Seq<MessageView> {
    Seq::new(
        calls.len(),
        |i: int| MessageView { role: "tool"@, content: outputs[i], tool_calls: seq![], tool_call_id: Some(calls[i].0) },
    )
}

/// The history and the last reply after a complete reply `t` whose tool
/// calls gave `outputs`: a reply with calls is kept with them, followed by
/// one tool message per call, and becomes the last reply; a reply without
/// calls is kept, and becomes the last reply, when it is more than white
/// space; else nothing changes.
pub open spec fn after_reply(
    h: Seq<MessageView>,
    last: Seq<char>,
    t: TurnView,
    outputs: Seq<Seq<char>>,
) -> (Seq<MessageView>, Seq<char>) {
    if t.pending.len() > 0 {
        (
            h.push(MessageView { role: "assistant"@, content: t.text, tool_calls: t.pending, tool_call_id: None })
                + tool_messages(t.pending, outputs),
            t.text,
        )
    } else if trim(t.text).len() > 0 {
        (h.push(plain_message("assistant"@, t.text)), t.text)
    } else {
        (h, last)
    }
}

/// The history of a run and the last reply it would return.
pub struct RunState {
    pub history: Vec<RunMessage>,
    pub last_reply: String,
}

fn copy_calls(v: &Vec<PendingCall>) -> (r: Vec<PendingCall>)
    ensures
        calls_view(r@) == calls_view(v@),
{
    let mut out: Vec<PendingCall> = Vec::new();
    let mut i: usize = 0;
    while i < v.len()
        invariant
            i <= v.len(),
            calls_view(out@) == calls_view(v@).take(i as int),
        decreases v.len() - i,
    {
        let c: PendingCall = (v[i].0.clone(), v[i].1.clone(), v[i].2.clone());
        let ghost before = calls_view(out@);
        out.push(c);
        proof {
            assert(calls_view(out@) =~= before.push(call_view(c)));
            assert(calls_view(v@).take(i + 1) =~= calls_view(v@).take(i as int).push(call_view(v@[i as int])));
        }
        i += 1;
    }
    proof {
        assert(calls_view(v@).take(v.len() as int) =~= calls_view(v@));
    }
    out
}

impl RunState {
    /// A run starting from `initial`, with no reply yet.
    pub fn new(initial: Vec<RunMessage>) -> (r: Self)
        ensures
            history_view(r.history@) == history_view(initial@),
            r.last_reply@ == Seq::<char>::empty(),
    {
        RunState { history: initial, last_reply: String::new() }
    }

    /// Before a step: on the last step, an assistant message `max_steps_prompt`
    /// tells the model to finish.
    pub fn begin_step(&mut self, is_last: bool, max_steps_prompt: &str)
        ensures
            final(self).last_reply@ == old(self).last_reply@,
            history_view(final(self).history@) == if is_last {
                history_view(old(self).history@).push(plain_message("assistant"@, max_steps_prompt@))
            } else {
                history_view(old(self).history@)
            },
    {
        if is_last {
            let m = RunMessage {
                role: String::from_str("assistant"),
                content: String::from_str(max_steps_prompt),
                tool_calls: Vec::new(),
                tool_call_id: None,
            };
            let ghost before = history_view(self.history@);
            self.history.push(m);
            proof {
                assert(calls_view(m.tool_calls@) =~= Seq::<(Seq<char>, Seq<char>, Seq<char>)>::empty());
                assert(history_view(self.history@) =~= before.push(plain_message("assistant"@, max_steps_prompt@)));
            }
        }
    }

    /// After a complete reply `turn` whose calls gave `outputs` (see
    /// `after_reply`); true when the run is done: no calls were asked for
    /// and the model said it finished.
    pub fn end_reply(&mut self, turn: &TurnState, outputs: Vec<String>) -> (r: bool)
        requires
            outputs.len() == turn.pending.len(),
        ensures
            (history_view(final(self).history@), final(self).last_reply@) == after_reply(
                history_view(old(self).history@),
                old(self).last_reply@,
                turn@,
                views(outputs@),
            ),
            r == (turn.pending.len() == 0 && turn.finish_seen),
    {
        let ghost h0 = history_view(self.history@);
        let ghost tv = turn@;
        let ghost ov = views(outputs@);
        if turn.pending.len() > 0 {
            let m = RunMessage {
                role: String::from_str("assistant"),
                content: turn.text.clone(),
                tool_calls: copy_calls(&turn.pending),
                tool_call_id: None,
            };
            self.history.push(m);
            let ghost h1 = history_view(self.history@);
            proof {
                assert(h1 =~= h0.push(MessageView { role: "assistant"@, content: tv.text, tool_calls: tv.pending, tool_call_id: None }));
            }
            let ghost tm = tool_messages(tv.pending, ov);
            let mut i: usize = 0;
            while i < outputs.len()
                invariant
                    outputs.len() == turn.pending.len(),
                    tv == turn@,
                    ov == views(outputs@),
                    tm == tool_messages(tv.pending, ov),
                    i <= outputs.len(),
                    history_view(self.history@) == h1 + tm.take(i as int),
                decreases outputs.len() - i,
            {
                let tm_msg = RunMessage {
                    role: String::from_str("tool"),
                    content: outputs[i].clone(),
                    tool_calls: Vec::new(),
                    tool_call_id: Some(turn.pending[i].0.clone()),
                };
                let ghost before = history_view(self.history@);
                self.history.push(tm_msg);
                proof {
                    assert(calls_view(tm_msg.tool_calls@) =~= Seq::<(Seq<char>, Seq<char>, Seq<char>)>::empty());
                    assert(ov[i as int] == outputs@[i as int]@);
                    assert(tv.pending[i as int] == call_view(turn.pending@[i as int]));
                    assert(message_view(tm_msg) == tm[i as int]);
                    assert(history_view(self.history@) =~= before.push(tm[i as int]));
                    assert(tm.take(i + 1) =~= tm.take(i as int).push(tm[i as int]));
                }
                i += 1;
            }
            proof {
                assert(tm.take(outputs.len() as int) =~= tm);
            }
            self.last_reply = turn.text.clone();
            return false;
        }
        if trim_str(turn.text.as_str()).unicode_len() > 0 {
            let m = RunMessage {
                role: String::from_str("assistant"),
                content: turn.text.clone(),
                tool_calls: Vec::new(),
                tool_call_id: None,
            };
            self.history.push(m);
            proof {
                assert(calls_view(m.tool_calls@) =~= Seq::<(Seq<char>, Seq<char>, Seq<char>)>::empty());
                assert(history_view(self.history@) =~= h0.push(plain_message("assistant"@, tv.text)));
            }
            self.last_reply = turn.text.clone();
        }
        proof {
            assert(calls_view(turn.pending@).len() == turn.pending.len());
        }
        turn.finish_seen
    }
}

} // verus!
