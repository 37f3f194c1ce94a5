//! The rows of the session panel: the lines of every message, then what
//! streams in while the model answers (its thinking, its reply and the
//! tool calls under way), each row wrapped to the panel's width.

use vstd::prelude::*;
use vstd::utf8::{encode_utf8, is_char_boundary};
use crate::latex::{latex_spec, latex_to_unicode};
use crate::styled::{joined_text, plain_style, span_lines, spans_text, spans_view, tone_style, StyledSpan, TextStyle, Tone};
use crate::text::{lines, lines_of, push_char, trim, trim_str, views};
use crate::tool::truncate_str;
use crate::ui_text::cut_at_bytes;
use crate::wrap::{copy_spans, spec_wrap_line, wrap_line_by_width};

verus! {

/// A message as rendered for the panel: its lines, and whether it is a
/// tool's result, which a click folds or unfolds.
pub struct RenderedMessage {
    pub lines: Vec<Vec<StyledSpan>>,
    pub is_tool: bool,
}

/// A tool call under way: its name, its input as shown, whether it runs
/// yet, and how long it has taken.
pub struct LiveTool {
    pub name: String,
    pub input: String,
    pub running: bool,
    pub elapsed: String,
}

/// What streams in while the model answers.
pub struct LiveView {
    pub ai_running: bool,
    /// Whether thinking is shown.
    pub show_thinking: bool,
    pub thinking: String,
    /// How long the model has thought so far, while it still thinks.
    pub thinking_for: Option<String>,
    /// How long the model thought, once it stopped.
    pub thought_for: String,
    pub assistant: String,
    /// The spinner's current frame.
    pub spinner: char,
    pub tools: Vec<LiveTool>,
}

/// A row of the panel: its spans, their text, the message it belongs to,
/// and the tool message a click on it folds.
pub struct SessionRow {
    pub spans: Vec<StyledSpan>,
    pub text: String,
    pub tool_message_index: Option<usize>,
    pub message_index: usize,
}

/// A row by its spans, the tool message it folds and its message.
pub struct RowView {
    pub spans: Seq<(Seq<char>, TextStyle)>,
    pub tool: Option<int>,
    pub message: int,
}

/// A tool call under way by its view.
pub struct ToolView {
    pub name: Seq<char>,
    pub input: Seq<char>,
    pub running: bool,
    pub elapsed: Seq<char>,
}

/// What streams in, by its view.
pub struct LiveSpec {
    pub ai_running: bool,
    pub show_thinking: bool,
    pub thinking: Seq<char>,
    pub thinking_for: Option<Seq<char>>,
    pub thought_for: Seq<char>,
    pub assistant: Seq<char>,
    pub spinner: char,
    pub tools: Seq<ToolView>,
}

impl View for LiveTool {
    type V = ToolView;

    open spec fn view(&self) -> ToolView {
        ToolView { name: self.name@, input: self.input@, running: self.running, elapsed: self.elapsed@ }
    }
}

impl View for LiveView {
    type V = LiveSpec;

    open spec fn view(&self) -> LiveSpec {
        LiveSpec {
            ai_running: self.ai_running,
            show_thinking: self.show_thinking,
            thinking: self.thinking@,
            thinking_for: match self.thinking_for {
                Some(e) => Some(e@),
                None => None,
            },
            thought_for: self.thought_for@,
            assistant: self.assistant@,
            spinner: self.spinner,
            tools: self.tools@.map_values(|t: LiveTool| t@),
        }
    }
}

/// A rendered message by its lines and whether it is a tool's result.
pub open spec fn message_view(m: RenderedMessage) -> (Seq<Seq<(Seq<char>, TextStyle)>>, bool) {
    (span_lines(m.lines@), m.is_tool)
}

pub open spec fn messages_view(v: Seq<RenderedMessage>) -> Seq<(Seq<Seq<(Seq<char>, TextStyle)>>, bool)> {
    v.map_values(|m: RenderedMessage| message_view(m))
}

pub open spec fn row_view(r: SessionRow) -> RowView {
    RowView {
        spans: spans_view(r.spans@),
        tool: match r.tool_message_index {
            Some(i) => Some(i as int),
            None => None,
        },
        message: r.message_index as int,
    }
}

pub open spec fn rows_view(v: Seq<SessionRow>) -> Seq<RowView> {
    v.map_values(|r: SessionRow| row_view(r))
}

/// A role's style in bold.
pub open spec fn bold(tone: Tone) -> TextStyle {
    TextStyle { bold: true, ..tone_style(tone) }
}

/// The rows of message `i`: one per line; a tool's result names itself as
/// the message a click folds.
pub open spec fn message_rows_of(msgs: Seq<(Seq<Seq<(Seq<char>, TextStyle)>>, bool)>, i: int) -> Seq<RowView> {
    msgs[i].0.map_values(
        |l: Seq<(Seq<char>, TextStyle)>|
            RowView {
                spans: l,
                tool: if msgs[i].1 {
                    Some(i)
                } else {
                    None
                },
                message: i,
            },
    )
}

/// The rows of the first `n` messages.
pub open spec fn message_rows(msgs: Seq<(Seq<Seq<(Seq<char>, TextStyle)>>, bool)>, n: int) -> Seq<RowView>
    decreases n,
{
    if n <= 0 {
        seq![]
    } else {
        message_rows(msgs, n - 1) + message_rows_of(msgs, n - 1)
    }
}

/// The lines of a streamed text, each with its LaTeX shown as Unicode, in
/// one style.
pub open spec fn text_rows(text: Seq<char>, tone: Tone, message: int) -> Seq<RowView> {
    lines(text).map_values(
        |l: Seq<char>| RowView { spans: seq![(latex_spec(l), tone_style(tone))], tool: None, message: message },
    )
}

/// Whether the model's thinking is shown: it runs, thinking is shown and
/// there is more than white space of it.
pub open spec fn shows_thinking(live: LiveSpec) -> bool {
    live.ai_running && live.show_thinking && trim(live.thinking).len() > 0
}

/// Whether the reply so far is shown: the model runs and there is more
/// than white space of it.
pub open spec fn shows_assistant(live: LiveSpec) -> bool {
    live.ai_running && trim(live.assistant).len() > 0
}

/// The header of the thinking: the spinner, `thinking` and how long so
/// far, while it thinks; `thought` and how long, once it stopped.
pub open spec fn thinking_header(live: LiveSpec) -> Seq<(Seq<char>, TextStyle)> {
    match live.thinking_for {
        Some(e) => seq![
            (seq![live.spinner] + " "@, tone_style(Tone::Thinking)),
            ("thinking"@, bold(Tone::Thinking)),
            (" · "@ + e, tone_style(Tone::Muted)),
        ],
        None => seq![("thought"@, bold(Tone::Thinking)), (": "@ + live.thought_for, tone_style(Tone::Muted))],
    }
}

pub open spec fn thinking_rows(live: LiveSpec, message: int) -> Seq<RowView> {
    if shows_thinking(live) {
        seq![RowView { spans: thinking_header(live), tool: None, message: message }]
            + text_rows(live.thinking, Tone::Thinking, message)
    } else {
        seq![]
    }
}

pub open spec fn assistant_rows(live: LiveSpec, message: int) -> Seq<RowView> {
    if shows_assistant(live) {
        seq![RowView { spans: seq![("assistant"@, bold(Tone::Assistant))], tool: None, message: message }]
            + text_rows(live.assistant, Tone::Assistant, message)
    } else {
        seq![]
    }
}

/// A tool's input as its card shows it: cut to its first 117 bytes when it
/// is longer than 120.
pub open spec fn tool_input_shown(input: Seq<char>) -> Seq<char> {
    if encode_utf8(input).len() > 120 {
        cut_at_bytes(input, 117)
    } else {
        input
    }
}

/// Whether a tool's input can be cut where its card cuts it: at a
/// character boundary, when it is longer than 120 bytes.
pub open spec fn input_cuttable(input: Seq<char>) -> bool {
    encode_utf8(input).len() > 120 ==> is_char_boundary(encode_utf8(input), 117)
}

/// The card line of a tool call: the spinner and the tool's name, its
/// input when there is one, and whether it runs and for how long.
pub open spec fn tool_card_spans(t: ToolView, spinner: char) -> Seq<(Seq<char>, TextStyle)> {
    let head = seq![(seq![spinner] + " "@, tone_style(Tone::Tool)), (t.name, tone_style(Tone::Tool))];
    let with_input = if t.input.len() > 0 {
        head.push(("  "@ + tool_input_shown(t.input), tone_style(Tone::Muted)))
    } else {
        head
    };
    with_input.push(
        (
            "  ["@ + (if t.running {
                "running"@
            } else {
                "created"@
            }) + " · "@ + t.elapsed + "]"@,
            tone_style(Tone::Muted),
        ),
    )
}

/// The three rows of a tool call: `tool` in bold, its card, an empty row.
pub open spec fn tool_card_rows(t: ToolView, spinner: char, message: int) -> Seq<RowView> {
    seq![
        RowView { spans: seq![("tool"@, bold(Tone::Tool))], tool: None, message: message },
        RowView { spans: tool_card_spans(t, spinner), tool: None, message: message },
        RowView { spans: seq![], tool: None, message: message },
    ]
}

/// The rows of the first `n` tool calls, numbered on from `base`.
pub open spec fn tool_rows(tools: Seq<ToolView>, spinner: char, base: int, n: int) -> Seq<RowView>
    decreases n,
{
    if n <= 0 {
        seq![]
    } else {
        tool_rows(tools, spinner, base, n - 1) + tool_card_rows(tools[n - 1], spinner, base + n - 1)
    }
}

/// The row shown when there is nothing else.
pub open spec fn placeholder_row() -> RowView {
    RowView {
        spans: seq![("No messages yet. Type in the input window and press Enter."@, tone_style(Tone::Muted))],
        tool: None,
        message: 0,
    }
}

/// The rows before wrapping: the messages', then the thinking's, the
/// reply's and the tool calls', each part numbered as the next message;
/// the placeholder when there are none.
pub open spec fn unwrapped_rows(msgs: Seq<(Seq<Seq<(Seq<char>, TextStyle)>>, bool)>, live: LiveSpec) -> Seq<RowView> {
    let i0 = msgs.len() as int;
    let i1 = if shows_thinking(live) {
        i0 + 1
    } else {
        i0
    };
    let i2 = if shows_assistant(live) {
        i1 + 1
    } else {
        i1
    };
    let all = message_rows(msgs, i0) + thinking_rows(live, i0) + assistant_rows(live, i1) + tool_rows(
        live.tools,
        live.spinner,
        i2,
        live.tools.len() as int,
    );
    if all.len() == 0 {
        seq![placeholder_row()]
    } else {
        all
    }
}

/// The rows one row gives when wrapped at `width`.
pub open spec fn wrap_row(row: RowView, width: nat) -> Seq<RowView> {
    spec_wrap_line(row.spans, width).map_values(
        |l: Seq<(Seq<char>, TextStyle)>| RowView { spans: l, tool: row.tool, message: row.message },
    )
}

/// Rows wrapped at `width`, in order.
pub open spec fn wrapped_rows(rows: Seq<RowView>, width: nat) -> Seq<RowView>
    decreases rows.len(),
{
    if rows.len() == 0 {
        seq![]
    } else {
        wrapped_rows(rows.drop_last(), width) + wrap_row(rows.last(), width)
    }
}

/// The width rows are wrapped at: the panel's less its two borders, at
/// least one.
pub open spec fn content_width(width: usize) -> nat {
    if width > 2 {
        (width - 2) as nat
    } else {
        1
    }
}

fn bold_style(tone: Tone) -> (r: TextStyle)
    ensures
        r == bold(tone),
{
    TextStyle { bold: true, ..plain_style(tone) }
}

fn one_span(text: String, style: TextStyle) -> (r: Vec<StyledSpan>)
    ensures
        spans_view(r@) == seq![(text@, style)],
{
    let mut v: Vec<StyledSpan> = Vec::new();
    v.push(StyledSpan { text: text, style: style });
    proof {
        assert(spans_view(v@) =~= seq![(text@, style)]);
    }
    v
}

fn row(spans: Vec<StyledSpan>, tool: Option<usize>, message: usize) -> (r: SessionRow)
    ensures
        r.spans@ == spans@,
        r.tool_message_index == tool,
        r.message_index == message,
{
    SessionRow { spans: spans, text: String::new(), tool_message_index: tool, message_index: message }
}

fn push_row(out: &mut Vec<SessionRow>, r: SessionRow)
    ensures
        final(out)@ == old(out)@.push(r),
        rows_view(final(out)@) == rows_view(old(out)@).push(row_view(r)),
{
    out.push(r);
    proof {
        assert(rows_view(final(out)@) =~= rows_view(old(out)@).push(row_view(r)));
    }
}

/// Appends the rows of a streamed text (see `text_rows`).
fn push_text_rows(out: &mut Vec<SessionRow>, text: &str, tone: Tone, message: usize)
    ensures
        rows_view(final(out)@) == rows_view(old(out)@) + text_rows(text@, tone, message as int),
{
    let ls = lines_of(text);
    let ghost lv = views(ls@);
    let ghost target = text_rows(text@, tone, message as int);
    let mut i: usize = 0;
    while i < ls.len()
        invariant
            lv == views(ls@),
            lv == lines(text@),
            target == text_rows(text@, tone, message as int),
            target.len() == lv.len(),
            i <= ls.len(),
            rows_view(out@) == rows_view(old(out)@) + target.take(i as int),
        decreases ls.len() - i,
    {
        let rendered = latex_to_unicode(ls[i].as_str());
        let r = row(one_span(rendered, plain_style(tone)), None, message);
        let ghost before = rows_view(out@);
        push_row(out, r);
        proof {
            assert(lv[i as int] == ls@[i as int]@);
            assert(row_view(r) == target[i as int]);
            assert(target.take(i + 1) =~= target.take(i as int).push(target[i as int]));
        }
        i += 1;
    }
    proof {
        assert(target.take(ls.len() as int) =~= target);
    }
}

/// The card line of a tool call (see `tool_card_spans`).
fn tool_card(t: &LiveTool, spinner: char) -> (r: Vec<StyledSpan>)
    requires
        input_cuttable(t.input@),
    ensures
        spans_view(r@) == tool_card_spans(t@, spinner),
{
    let mut v: Vec<StyledSpan> = Vec::new();
    let mut head = String::new();
    push_char(&mut head, spinner);
    head.append(" ");
    v.push(StyledSpan { text: head, style: plain_style(Tone::Tool) });
    v.push(StyledSpan { text: t.name.clone(), style: plain_style(Tone::Tool) });
    proof {
        assert(spans_view(v@) =~= seq![(seq![spinner] + " "@, tone_style(Tone::Tool)), (t.name@, tone_style(Tone::Tool))]);
    }
    let ghost head_v = spans_view(v@);
    if t.input.as_str().unicode_len() > 0 {
        let s = t.input.as_str();
        let n = s.as_bytes().len();
        let cut: &str = if n > 120 {
            truncate_str(s, 117)
        } else {
            s
        };
        proof {
            if n > 120 {
                vstd::utf8::encode_utf8_decode_utf8(cut@);
                assert(cut@ == cut_at_bytes(t.input@, 117));
            }
            assert(cut@ == tool_input_shown(t.input@));
        }
        let mut shown = String::from_str("  ");
        shown.append(cut);
        v.push(StyledSpan { text: shown, style: plain_style(Tone::Muted) });
        proof {
            assert(spans_view(v@) =~= head_v.push(("  "@ + tool_input_shown(t.input@), tone_style(Tone::Muted))));
        }
    }
    let ghost mid_v = spans_view(v@);
    let mut tail = String::from_str("  [");
    if t.running {
        tail.append("running");
    } else {
        tail.append("created");
    }
    tail.append(" · ");
    tail.append(t.elapsed.as_str());
    tail.append("]");
    v.push(StyledSpan { text: tail, style: plain_style(Tone::Muted) });
    proof {
        assert(spans_view(v@) =~= mid_v.push((tail@, tone_style(Tone::Muted))));
    }
    v
}

/// Appends the rows of the messages (see `message_rows`).
fn push_message_rows(out: &mut Vec<SessionRow>, messages: &Vec<RenderedMessage>)
    requires
        old(out)@.len() == 0,
    ensures
        rows_view(final(out)@) == message_rows(messages_view(messages@), messages.len() as int),
{
    let ghost mv = messages_view(messages@);
    let mut i: usize = 0;
    while i < messages.len()
        invariant
            mv == messages_view(messages@),
            mv.len() == messages.len(),
            i <= messages.len(),
            rows_view(out@) == message_rows(mv, i as int),
        decreases messages.len() - i,
    {
        let msg = &messages[i];
        let tool: Option<usize> = if msg.is_tool {
            Some(i)
        } else {
            None
        };
        let ghost start = rows_view(out@);
        let ghost these = message_rows_of(mv, i as int);
        proof {
            assert(mv[i as int] == message_view(messages@[i as int]));
        }
        let mut j: usize = 0;
        while j < msg.lines.len()
            invariant
                mv == messages_view(messages@),
                i < messages.len(),
                msg == messages@[i as int],
                mv[i as int] == message_view(*msg),
                these == message_rows_of(mv, i as int),
                these.len() == msg.lines.len(),
                tool == (if msg.is_tool {
                    Some(i)
                } else {
                    None::<usize>
                }),
                j <= msg.lines.len(),
                rows_view(out@) == start + these.take(j as int),
            decreases msg.lines.len() - j,
        {
            let r = row(copy_spans(&msg.lines[j]), tool, i);
            push_row(out, r);
            proof {
                assert(row_view(r) == these[j as int]);
                assert(these.take(j + 1) =~= these.take(j as int).push(these[j as int]));
            }
            j += 1;
        }
        proof {
            assert(these.take(msg.lines.len() as int) =~= these);
        }
        i += 1;
    }
}

/// Appends the rows of the tool calls under way (see `tool_rows`).
fn push_tool_rows(out: &mut Vec<SessionRow>, live: &LiveView, base: usize)
    requires
        base + live.tools.len() <= usize::MAX,
        forall|k: int| 0 <= k < live.tools.len() ==> input_cuttable(#[trigger] live.tools@[k].input@),
    ensures
        rows_view(final(out)@) == rows_view(old(out)@) + tool_rows(
            live@.tools,
            live.spinner,
            base as int,
            live.tools.len() as int,
        ),
{
    let ghost tv = live@.tools;
    let mut k: usize = 0;
    while k < live.tools.len()
        invariant
            tv == live@.tools,
            tv.len() == live.tools.len(),
            base + live.tools.len() <= usize::MAX,
            forall|k: int| 0 <= k < live.tools.len() ==> input_cuttable(#[trigger] live.tools@[k].input@),
            k <= live.tools.len(),
            rows_view(out@) == rows_view(old(out)@) + tool_rows(tv, live.spinner, base as int, k as int),
        decreases live.tools.len() - k,
    {
        let t = &live.tools[k];
        let m = base + k;
        proof {
            assert(tv[k as int] == t@);
        }
        let ghost before = rows_view(out@);
        let mut head: Vec<StyledSpan> = Vec::new();
        head.push(StyledSpan { text: String::from_str("tool"), style: bold_style(Tone::Tool) });
        proof {
            assert(spans_view(head@) =~= seq![("tool"@, bold(Tone::Tool))]);
        }
        push_row(out, row(head, None, m));
        push_row(out, row(tool_card(t, live.spinner), None, m));
        let empty: Vec<StyledSpan> = Vec::new();
        proof {
            assert(spans_view(empty@) =~= Seq::<(Seq<char>, TextStyle)>::empty());
        }
        push_row(out, row(empty, None, m));
        proof {
            assert(rows_view(out@) =~= before + tool_card_rows(t@, live.spinner, m as int));
        }
        k += 1;
    }
}

/// Wraps each row at `width` (see `wrapped_rows`); each row's text is that
/// of its spans.
fn wrap_rows(rows: &Vec<SessionRow>, width: usize) -> (r: Vec<SessionRow>)
    ensures
        rows_view(r@) == wrapped_rows(rows_view(rows@), width as nat),
        forall|k: int| 0 <= k < r.len() ==> (#[trigger] r@[k]).text@ == spans_text(spans_view(r@[k].spans@)),
{
    let ghost pv = rows_view(rows@);
    let mut out: Vec<SessionRow> = Vec::new();
    let mut k: usize = 0;
    while k < rows.len()
        invariant
            pv == rows_view(rows@),
            pv.len() == rows.len(),
            k <= rows.len(),
            rows_view(out@) == wrapped_rows(pv.take(k as int), width as nat),
            forall|q: int| 0 <= q < out.len() ==> (#[trigger] out@[q]).text@ == spans_text(spans_view(out@[q].spans@)),
        decreases rows.len() - k,
    {
        let src = &rows[k];
        let ls = wrap_line_by_width(&src.spans, width);
        let ghost start = rows_view(out@);
        let ghost these = wrap_row(pv[k as int], width as nat);
        proof {
            assert(pv[k as int] == row_view(*src));
        }
        let mut j: usize = 0;
        while j < ls.len()
            invariant
                k < rows.len(),
                src == rows@[k as int],
                pv[k as int] == row_view(*src),
                these == wrap_row(pv[k as int], width as nat),
                span_lines(ls@) == spec_wrap_line(spans_view(src.spans@), width as nat),
                these.len() == ls.len(),
                j <= ls.len(),
                rows_view(out@) == start + these.take(j as int),
                forall|q: int| 0 <= q < out.len() ==> (#[trigger] out@[q]).text@ == spans_text(spans_view(out@[q].spans@)),
            decreases ls.len() - j,
        {
            let spans = copy_spans(&ls[j]);
            let text = joined_text(&spans);
            let r = SessionRow {
                spans: spans,
                text: text,
                tool_message_index: src.tool_message_index,
                message_index: src.message_index,
            };
            push_row(&mut out, r);
            proof {
                assert(span_lines(ls@)[j as int] == spans_view(ls@[j as int]@));
                assert(row_view(r) == these[j as int]);
                assert(these.take(j + 1) =~= these.take(j as int).push(these[j as int]));
            }
            j += 1;
        }
        proof {
            assert(these.take(ls.len() as int) =~= these);
            assert(pv.take(k + 1).drop_last() =~= pv.take(k as int));
            assert(pv.take(k + 1).last() == pv[k as int]);
        }
        k += 1;
    }
    proof {
        assert(pv.take(rows.len() as int) =~= pv);
    }
    out
}

/// The rows of the session panel `width` columns wide: the rows of each
/// message, then, while the model runs, its thinking (when shown) and its
/// reply so far, then the tool calls under way; the placeholder when there
/// is none of these; every row wrapped at the panel's width less its
/// borders (see `unwrapped_rows`, `wrapped_rows`). Each row's text is that
/// of its spans.
pub fn session_rows(messages: &Vec<RenderedMessage>, live: &LiveView, width: usize) -> (r: Vec<SessionRow>)
    requires
        messages.len() + live.tools.len() + 2 <= usize::MAX,
        forall|k: int| 0 <= k < live.tools.len() ==> input_cuttable(#[trigger] live.tools@[k].input@),
    ensures
        rows_view(r@) == wrapped_rows(unwrapped_rows(messages_view(messages@), live@), content_width(width)),
        forall|k: int| 0 <= k < r.len() ==> (#[trigger] r@[k]).text@ == spans_text(spans_view(r@[k].spans@)),
{
    let ghost mv = messages_view(messages@);
    let ghost lv = live@;
    let mut pending: Vec<SessionRow> = Vec::new();
    push_message_rows(&mut pending, messages);
    let ghost after_messages = rows_view(pending@);
    let mut idx: usize = messages.len();
    let thinking_trim = trim_str(live.thinking.as_str());
    if live.ai_running && live.show_thinking && thinking_trim.as_str().unicode_len() > 0 {
        let mut header: Vec<StyledSpan> = Vec::new();
        match &live.thinking_for {
            Some(e) => {
                let mut frame = String::new();
                push_char(&mut frame, live.spinner);
                frame.append(" ");
                header.push(StyledSpan { text: frame, style: plain_style(Tone::Thinking) });
                header.push(StyledSpan { text: String::from_str("thinking"), style: bold_style(Tone::Thinking) });
                let mut took = String::from_str(" · ");
                took.append(e.as_str());
                header.push(StyledSpan { text: took, style: plain_style(Tone::Muted) });
            },
            None => {
                header.push(StyledSpan { text: String::from_str("thought"), style: bold_style(Tone::Thinking) });
                let mut took = String::from_str(": ");
                took.append(live.thought_for.as_str());
                header.push(StyledSpan { text: took, style: plain_style(Tone::Muted) });
            },
        }
        proof {
            assert(spans_view(header@) =~= thinking_header(lv));
        }
        push_row(&mut pending, row(header, None, idx));
        push_text_rows(&mut pending, live.thinking.as_str(), Tone::Thinking, idx);
        idx = idx + 1;
    }
    proof {
        assert(rows_view(pending@) =~= after_messages + thinking_rows(lv, messages.len() as int));
    }
    let ghost after_thinking = rows_view(pending@);
    let ghost i1 = idx as int;
    let assistant_trim = trim_str(live.assistant.as_str());
    if live.ai_running && assistant_trim.as_str().unicode_len() > 0 {
        let mut header: Vec<StyledSpan> = Vec::new();
        header.push(StyledSpan { text: String::from_str("assistant"), style: bold_style(Tone::Assistant) });
        proof {
            assert(spans_view(header@) =~= seq![("assistant"@, bold(Tone::Assistant))]);
        }
        push_row(&mut pending, row(header, None, idx));
        push_text_rows(&mut pending, live.assistant.as_str(), Tone::Assistant, idx);
        idx = idx + 1;
    }
    proof {
        assert(rows_view(pending@) =~= after_thinking + assistant_rows(lv, i1));
    }
    push_tool_rows(&mut pending, live, idx);
    if pending.len() == 0 {
        let r = row(
            one_span(
                String::from_str("No messages yet. Type in the input window and press Enter."),
                plain_style(Tone::Muted),
            ),
            None,
            0,
        );
        push_row(&mut pending, r);
    }
    proof {
        assert(rows_view(pending@) =~= unwrapped_rows(mv, lv));
    }
    let cw: usize = if width > 2 {
        width - 2
    } else {
        1
    };
    wrap_rows(&pending, cw)
}

} // verus!
