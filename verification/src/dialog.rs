//! Selection dialogs: a list of options with one selected, moved with the
//! arrow keys, shown through a scrolling window.

use vstd::prelude::*;
use crate::styled::{plain_style, span_lines, spans_view, tone_style, StyledSpan, TextStyle, Tone};
use crate::num::{decimal, decimal_string};
use crate::text::{starts_with, starts_with_str, str_eq};
use crate::tool::truncate_str;
use crate::ui_text::cut_at_bytes;
use vstd::utf8::{encode_utf8, is_char_boundary};

verus! {

/// What a dialog is choosing.
#[derive(Clone, Copy, Debug, PartialEq, Eq, Structural)]
pub enum DialogKind {
    Thinking,
    Session,
    SessionDelete,
    Agent,
    Task,
    Provider,
    ProviderModel,
    ConnectProtocol,
    Model,
    ReasoningEffort,
    SlashHelp,
    Theme,
    ReasoningToggle,
    ModelConfigLoop,
}

/// One choice: the value handed back, the label shown, and a description.
pub struct DialogOption {
    value: String,
    label: String,
    description: String,
}

impl View for DialogOption {
    type V = (Seq<char>, Seq<char>, Seq<char>);

    closed spec fn view(&self) -> (Seq<char>, Seq<char>, Seq<char>) {
        (self.value@, self.label@, self.description@)
    }
}

impl DialogOption {
    pub fn new(value: &str, label: &str, description: &str) -> (r: Self)
        ensures
            r@ == (value@, label@, description@),
    {
        DialogOption {
            value: String::from_str(value),
            label: String::from_str(label),
            description: String::from_str(description),
        }
    }

    pub fn value(&self) -> (r: &str)
        ensures
            r@ == self@.0,
    {
        self.value.as_str()
    }

    pub fn label(&self) -> (r: &str)
        ensures
            r@ == self@.1,
    {
        self.label.as_str()
    }

    pub fn description(&self) -> (r: &str)
        ensures
            r@ == self@.2,
    {
        self.description.as_str()
    }
}

/// The views of a list of options.
pub open spec fn options_view(v: Seq<DialogOption>) -> Seq<(Seq<char>, Seq<char>, Seq<char>)> {
    v.map_values(|o: DialogOption| o@)
}

/// A dialog by its view.
pub struct DialogView {
    pub kind: DialogKind,
    pub title: Seq<char>,
    pub description: Seq<char>,
    pub options: Seq<(Seq<char>, Seq<char>, Seq<char>)>,
    pub selected: nat,
}

/// A list of options with one of them selected; the selection is always an
/// option's index, or 0 when there are none.
pub struct Dialog {
    kind: DialogKind,
    title: String,
    description: String,
    options: Vec<DialogOption>,
    selected: usize,
}

/// Where a selection request lands: the last option at most.
pub open spec fn clamp_selection(selected: nat, count: nat) -> nat {
    if count == 0 {
        0
    } else if selected < count {
        selected
    } else {
        (count - 1) as nat
    }
}

/// The first option shown when `max_visible` rows fit: none scrolled while
/// the selection is within the first screen, else the selection kept near
/// the middle without running past the last option.
pub open spec fn spec_offset(selected: nat, count: nat, max_visible: nat) -> nat {
    let mv = if max_visible >= 1 {
        max_visible
    } else {
        1
    };
    if selected < mv {
        0
    } else {
        let a = selected - mv / 2;
        let b = if count >= mv {
            count - mv
        } else {
            0
        };
        (if a < b {
            a
        } else {
            b
        }) as nat
    }
}

impl View for Dialog {
    type V = DialogView;

    closed spec fn view(&self) -> DialogView {
        DialogView {
            kind: self.kind,
            title: self.title@,
            description: self.description@,
            options: options_view(self.options@),
            selected: self.selected as nat,
        }
    }
}

impl Dialog {
    #[verifier::type_invariant]
    spec fn selection_in_range(self) -> bool {
        if self.options.len() == 0 {
            self.selected == 0
        } else {
            self.selected < self.options.len()
        }
    }

    /// Whether a view satisfies what every dialog keeps.
    pub open spec fn valid_view(v: DialogView) -> bool {
        if v.options.len() == 0 {
            v.selected == 0
        } else {
            v.selected < v.options.len()
        }
    }

    /// A dialog with the selection clamped into the options.
    pub fn new(kind: DialogKind, title: &str, description: &str, options: Vec<DialogOption>, selected: usize) -> (r: Self)
        ensures
            r@.kind == kind,
            r@.title == title@,
            r@.description == description@,
            r@.options == options_view(options@),
            r@.selected == clamp_selection(selected as nat, options.len() as nat),
            Self::valid_view(r@),
    {
        let n = options.len();
        let sel = if n == 0 {
            0
        } else if selected < n {
            selected
        } else {
            n - 1
        };
        Dialog {
            kind,
            title: String::from_str(title),
            description: String::from_str(description),
            options,
            selected: sel,
        }
    }

    pub fn kind(&self) -> (r: DialogKind)
        ensures
            r == self@.kind,
    {
        self.kind
    }

    /// Moves the selection down, from the last option to the first.
    pub fn next(&mut self)
        ensures
            final(self)@.kind == old(self)@.kind,
            final(self)@.title == old(self)@.title,
            final(self)@.description == old(self)@.description,
            final(self)@.options == old(self)@.options,
            Self::valid_view(old(self)@) && Self::valid_view(final(self)@),
            final(self)@.selected == (if old(self)@.options.len() == 0 {
                old(self)@.selected
            } else {
                ((old(self)@.selected + 1) % old(self)@.options.len()) as nat
            }),
    {
        proof {
            use_type_invariant(&*self);
        }
        if self.options.len() == 0 {
            return;
        }
        self.selected = (self.selected + 1) % self.options.len();
    }

    /// Moves the selection up, from the first option to the last.
    pub fn previous(&mut self)
        ensures
            final(self)@.kind == old(self)@.kind,
            final(self)@.title == old(self)@.title,
            final(self)@.description == old(self)@.description,
            final(self)@.options == old(self)@.options,
            Self::valid_view(old(self)@) && Self::valid_view(final(self)@),
            final(self)@.selected == (if old(self)@.options.len() == 0 {
                old(self)@.selected
            } else if old(self)@.selected == 0 {
                (old(self)@.options.len() - 1) as nat
            } else {
                (old(self)@.selected - 1) as nat
            }),
    {
        proof {
            use_type_invariant(&*self);
        }
        if self.options.len() == 0 {
            return;
        }
        self.selected = if self.selected == 0 {
            self.options.len() - 1
        } else {
            self.selected - 1
        };
    }

    /// The value of the selected option; none when there are no options.
    pub fn selected_value(&self) -> (r: Option<&str>)
        ensures
            self@.options.len() == 0 ==> r is None,
            self@.options.len() > 0 ==> (r matches Some(v) && v@ == self@.options[self@.selected as int].0),
    {
        proof {
            use_type_invariant(self);
        }
        if self.selected < self.options.len() {
            Some(self.options[self.selected].value())
        } else {
            None
        }
    }

    /// Selects an option by index, clamped to the last one.
    pub fn set_selected(&mut self, selected: usize)
        ensures
            final(self)@.kind == old(self)@.kind,
            final(self)@.title == old(self)@.title,
            final(self)@.description == old(self)@.description,
            final(self)@.options == old(self)@.options,
            final(self)@.selected == clamp_selection(selected as nat, old(self)@.options.len()),
            Self::valid_view(final(self)@),
    {
        let n = self.options.len();
        self.selected = if n == 0 {
            0
        } else if selected < n {
            selected
        } else {
            n - 1
        };
    }

    pub fn title(&self) -> (r: &str)
        ensures
            r@ == self@.title,
    {
        self.title.as_str()
    }

    pub fn description(&self) -> (r: &str)
        ensures
            r@ == self@.description,
    {
        self.description.as_str()
    }

    pub fn footer_hint(&self) -> (r: &'static str)
        ensures
            r@ == "↑/↓ 选择 · Enter 确认 · Esc 关闭"@,
    {
        "↑/↓ 选择 · Enter 确认 · Esc 关闭"
    }

    pub fn option_count(&self) -> (r: usize)
        ensures
            r == self@.options.len(),
    {
        self.options.len()
    }

    pub fn selected_index(&self) -> (r: usize)
        ensures
            r == self@.selected,
    {
        self.selected
    }

    /// The option at an index, if there is one.
    pub fn option(&self, index: usize) -> (r: Option<&DialogOption>)
        ensures
            index < self@.options.len() ==> (r matches Some(o) && o@ == self@.options[index as int]),
            index >= self@.options.len() ==> r is None,
    {
        if index < self.options.len() {
            Some(&self.options[index])
        } else {
            None
        }
    }

    /// The first option shown when `max_visible` options fit (see
    /// `spec_offset`); the selected option is always among those shown.
    pub fn compute_offset(&self, max_visible: usize) -> (r: usize)
        ensures
            r == spec_offset(self@.selected, self@.options.len(), max_visible as nat),
            r <= self@.selected,
            self@.selected < r + (if max_visible >= 1 { max_visible as int } else { 1 }),
            self@.options.len() > 0 ==> r < self@.options.len(),
    {
        proof {
            use_type_invariant(self);
        }
        let mv = if max_visible >= 1 {
            max_visible
        } else {
            1
        };
        if self.selected < mv {
            return 0;
        }
        let a = self.selected - mv / 2;
        let n = self.options.len();
        let b = if n >= mv {
            n - mv
        } else {
            0
        };
        if a < b {
            a
        } else {
            b
        }
    }

    /// The option under a row of the list, three rows to an option, when
    /// that option is shown.
    pub fn option_index_at(&self, row: usize, max_visible: usize) -> (r: Option<usize>)
        requires
            row / 3 + self@.options.len() <= usize::MAX,
            max_visible + self@.options.len() <= usize::MAX,
        ensures
            ({
                let off = spec_offset(self@.selected, self@.options.len(), max_visible as nat);
                let index = off + row / 3;
                if index >= self@.options.len() || index >= off + max_visible {
                    r is None
                } else {
                    r == Some(index as usize)
                }
            }),
    {
        proof {
            use_type_invariant(self);
        }
        let offset = self.compute_offset(max_visible);
        let index = offset + row / 3;
        if index >= self.options.len() {
            return None;
        }
        if index >= offset + max_visible {
            return None;
        }
        Some(index)
    }
}

/// Moving the selection down and then up, or up and then down, gives back
/// the selection one started from.
pub proof fn lemma_next_previous_inverse(selected: nat, count: nat)
    requires
        count > 0,
        selected < count,
    ensures
        ({
            let down = ((selected + 1) % count) as nat;
            let back = if down == 0 {
                (count - 1) as nat
            } else {
                (down - 1) as nat
            };
            back == selected
        }),
        ({
            let up = if selected == 0 {
                (count - 1) as nat
            } else {
                (selected - 1) as nat
            };
            ((up + 1) % count) as nat == selected
        }),
{
    if selected + 1 == count {
        assert((selected + 1) % count == 0) by (nonlinear_arith)
            requires
                selected + 1 == count,
                count > 0,
        ;
    } else {
        assert((selected + 1) % count == selected + 1) by (nonlinear_arith)
            requires
                selected + 1 < count,
        ;
    }
    if selected == 0 {
        assert(((count - 1) as nat + 1) % count == 0) by (nonlinear_arith)
            requires
                count > 0,
        ;
    } else {
        assert(((selected - 1) as nat + 1) % count == selected) by (nonlinear_arith)
            requires
                0 < selected < count,
        ;
    }
}

/// The slash commands offered as completions: value, label, description.
pub open spec fn slash_items() -> Seq<(Seq<char>, Seq<char>, Seq<char>)> {
    seq![
        ("/thinking"@, "thinking"@, "Toggle thinking visibility"@),
        ("/session"@, "session"@, "List or switch sessions"@),
        ("/agent"@, "agent"@, "List or switch agents"@),
        ("/task"@, "task"@, "List or update tasks"@),
        ("/connect"@, "connect"@, "Configure providers and verify credentials"@),
        ("/models"@, "models"@, "Switch registered models and reasoning effort"@),
        ("/compact"@, "compact"@, "Compact the current session"@),
        ("/files"@, "files"@, "Toggle the file-tree sidebar"@),
        ("/diff"@, "diff"@, "Show the last edit as a diff"@),
        ("/reload"@, "reload"@, "Reload config, agents, skills, rules"@),
        ("/init"@, "init"@, "Initialize project: check, investigate, scaffold docs"@),
        ("/dream"@, "dream"@, "Summarize sessions into dreaming memory"@),
        ("/theme"@, "theme"@, "Switch color theme"@),
        ("/exit"@, "exit"@, "Exit the TUI"@),
    ]
}

fn slash_item(i: usize) -> (r: (&'static str, &'static str, &'static str))
    requires
        i < 14,
    ensures
        (r.0@, r.1@, r.2@) == slash_items()[i as int],
{
    if i == 0 {
        ("/thinking", "thinking", "Toggle thinking visibility")
    } else if i == 1 {
        ("/session", "session", "List or switch sessions")
    } else if i == 2 {
        ("/agent", "agent", "List or switch agents")
    } else if i == 3 {
        ("/task", "task", "List or update tasks")
    } else if i == 4 {
        ("/connect", "connect", "Configure providers and verify credentials")
    } else if i == 5 {
        ("/models", "models", "Switch registered models and reasoning effort")
    } else if i == 6 {
        ("/compact", "compact", "Compact the current session")
    } else if i == 7 {
        ("/files", "files", "Toggle the file-tree sidebar")
    } else if i == 8 {
        ("/diff", "diff", "Show the last edit as a diff")
    } else if i == 9 {
        ("/reload", "reload", "Reload config, agents, skills, rules")
    } else if i == 10 {
        ("/init", "init", "Initialize project: check, investigate, scaffold docs")
    } else if i == 11 {
        ("/dream", "dream", "Summarize sessions into dreaming memory")
    } else if i == 12 {
        ("/theme", "theme", "Switch color theme")
    } else {
        ("/exit", "exit", "Exit the TUI")
    }
}

/// The items whose value starts with `input`, in order.
pub open spec fn slash_matches(items: Seq<(Seq<char>, Seq<char>, Seq<char>)>, input: Seq<char>) -> Seq<(Seq<char>, Seq<char>, Seq<char>)>
    decreases items.len(),
{
    if items.len() == 0 {
        seq![]
    } else {
        let r = slash_matches(items.drop_last(), input);
        if starts_with(items.last().0, input) {
            r.push(items.last())
        } else {
            r
        }
    }
}

/// The slash commands whose name starts with what has been typed.
pub fn slash_options(input: &str) -> (r: Vec<DialogOption>)
    ensures
        options_view(r@) == slash_matches(slash_items(), input@),
{
    let mut out: Vec<DialogOption> = Vec::new();
    let mut i: usize = 0;
    proof {
        assert(slash_items().len() == 14);
    }
    while i < 14
        invariant
            i <= 14,
            slash_items().len() == 14,
            options_view(out@) == slash_matches(slash_items().take(i as int), input@),
        decreases 14 - i,
    {
        proof {
            assert(slash_items().take(i + 1).drop_last() =~= slash_items().take(i as int));
        }
        let (v, l, d) = slash_item(i);
        if starts_with_str(v, input) {
            let ghost before = options_view(out@);
            let o = DialogOption::new(v, l, d);
            out.push(o);
            proof {
                assert(options_view(out@) =~= before.push(o@));
            }
        }
        i += 1;
    }
    proof {
        assert(slash_items().take(14) =~= slash_items());
    }
    out
}


/// The style of an option's main text: the selected one bold in the
/// selection style, the others in the dialog style.
pub open spec fn option_style(selected: bool) -> TextStyle {
    if selected {
        TextStyle { bold: true, ..tone_style(Tone::DialogSelected) }
    } else {
        tone_style(Tone::Dialog)
    }
}

/// The marker before an option: `› ` for the selected one.
pub open spec fn option_marker(selected: bool) -> Seq<char> {
    if selected {
        "› "@
    } else {
        "  "@
    }
}

/// An option in the compact list: marker and value, then the description
/// muted.
pub open spec fn compact_line(o: (Seq<char>, Seq<char>, Seq<char>), selected: bool) -> Seq<(Seq<char>, TextStyle)> {
    seq![(option_marker(selected) + o.0, option_style(selected)), ("  "@ + o.2, tone_style(Tone::Muted))]
}

/// The compact list: one line per option.
pub open spec fn spec_compact_lines(d: DialogView) -> Seq<Seq<(Seq<char>, TextStyle)>> {
    Seq::new(d.options.len(), |i: int| compact_line(d.options[i], i == d.selected))
}

/// An option in the full list: marker and label, the description indented
/// and muted below it, and an empty line.
pub open spec fn option_block(o: (Seq<char>, Seq<char>, Seq<char>), selected: bool) -> Seq<Seq<(Seq<char>, TextStyle)>> {
    seq![
        seq![(option_marker(selected) + o.1, option_style(selected))],
        seq![("    "@ + o.2, tone_style(Tone::Muted))],
        seq![],
    ]
}

/// The blocks of the options from `i` to `end`.
pub open spec fn option_blocks(d: DialogView, i: int, end: int) -> Seq<Seq<(Seq<char>, TextStyle)>>
    decreases end - i,
{
    if i >= end || i < 0 || i >= d.options.len() {
        seq![]
    } else {
        option_block(d.options[i], i == d.selected) + option_blocks(d, i + 1, end)
    }
}

/// The full list in a window of `max_visible` options: the options from
/// the first shown (see `spec_offset`) on, at most `max_visible` of them.
pub open spec fn spec_option_lines(d: DialogView, max_visible: nat) -> Seq<Seq<(Seq<char>, TextStyle)>> {
    let offset = spec_offset(d.selected, d.options.len(), max_visible);
    option_blocks(d, offset as int, (offset + max_visible) as int)
}

fn option_style_exec(selected: bool) -> (r: TextStyle)
    ensures
        r == option_style(selected),
{
    if selected {
        TextStyle { bold: true, ..plain_style(Tone::DialogSelected) }
    } else {
        plain_style(Tone::Dialog)
    }
}

fn marked(selected: bool, text: &str) -> (r: String)
    ensures
        r@ == option_marker(selected) + text@,
{
    let mut m = if selected { String::from_str("› ") } else { String::from_str("  ") };
    m.append(text);
    m
}

fn prefixed(prefix: &str, text: &str) -> (r: String)
    ensures
        r@ == prefix@ + text@,
{
    let mut m = String::from_str(prefix);
    m.append(text);
    m
}

impl Dialog {
    /// The compact list of the options (see `spec_compact_lines`).
    pub fn compact_lines(&self) -> (r: Vec<Vec<StyledSpan>>)
        ensures
            span_lines(r@) == spec_compact_lines(self@),
    {
        let ghost d = self@;
        let mut out: Vec<Vec<StyledSpan>> = Vec::new();
        let mut i: usize = 0;
        while i < self.options.len()
            invariant
                d == self@,
                i <= self.options.len(),
                span_lines(out@) =~= spec_compact_lines(d).take(i as int),
            decreases self.options.len() - i,
        {
            let sel = i == self.selected;
            let o = &self.options[i];
            let mut line: Vec<StyledSpan> = Vec::new();
            line.push(StyledSpan { text: marked(sel, o.value()), style: option_style_exec(sel) });
            line.push(StyledSpan { text: prefixed("  ", o.description()), style: plain_style(Tone::Muted) });
            let ghost before = span_lines(out@);
            proof {
                assert(d.options[i as int] == o@);
                assert(spans_view(line@) =~= compact_line(d.options[i as int], i == d.selected));
            }
            out.push(line);
            proof {
                assert(span_lines(out@) =~= before.push(spans_view(line@)));
                assert(spec_compact_lines(d).take(i + 1) =~= spec_compact_lines(d).take(i as int).push(
                    compact_line(d.options[i as int], i == d.selected),
                ));
            }
            i += 1;
        }
        proof {
            assert(spec_compact_lines(d).take(self.options.len() as int) =~= spec_compact_lines(d));
        }
        out
    }

    /// The full list in a window of `max_visible` options (see
    /// `spec_option_lines`).
    pub fn option_lines(&self, max_visible: usize) -> (r: Vec<Vec<StyledSpan>>)
        ensures
            span_lines(r@) == spec_option_lines(self@, max_visible as nat),
    {
        let ghost d = self@;
        let offset = self.compute_offset(max_visible);
        let n = self.options.len();
        let end: usize = if max_visible > n - offset { n } else { offset + max_visible };
        let mut out: Vec<Vec<StyledSpan>> = Vec::new();
        let mut i = offset;
        proof {
            lemma_option_blocks_end(d, offset as int, end as int, (offset + max_visible) as int);
        }
        while i < end
            invariant
                d == self@,
                n == d.options.len(),
                offset <= i <= end <= n,
                span_lines(out@) + option_blocks(d, i as int, end as int) =~= option_blocks(d, offset as int, end as int),
            decreases end - i,
        {
            let sel = i == self.selected;
            let o = &self.options[i];
            let mut l1: Vec<StyledSpan> = Vec::new();
            l1.push(StyledSpan { text: marked(sel, o.label()), style: option_style_exec(sel) });
            let mut l2: Vec<StyledSpan> = Vec::new();
            l2.push(StyledSpan { text: prefixed("    ", o.description()), style: plain_style(Tone::Muted) });
            let l3: Vec<StyledSpan> = Vec::new();
            let ghost before = span_lines(out@);
            proof {
                assert(d.options[i as int] == o@);
                let blk = option_block(d.options[i as int], i == d.selected);
                assert(spans_view(l1@) =~= blk[0]);
                assert(spans_view(l2@) =~= blk[1]);
                assert(spans_view(l3@) =~= blk[2]);
            }
            out.push(l1);
            out.push(l2);
            out.push(l3);
            proof {
                assert(span_lines(out@) =~= before + option_block(d.options[i as int], i == d.selected));
            }
            i += 1;
        }
        out
    }
}

/// The blocks up to `end` are those up to any later end past the options.
proof fn lemma_option_blocks_end(d: DialogView, i: int, end: int, far: int)
    requires
        0 <= i,
        end <= far,
        end == d.options.len() || end == far,
    ensures
        option_blocks(d, i, end) == option_blocks(d, i, far),
    decreases end - i,
{
    if i < end && i < d.options.len() {
        lemma_option_blocks_end(d, i + 1, end, far);
    }
}


/// A stored session as the session dialog lists it.
pub struct SessionSummary {
    pub id: String,
    pub title: Option<String>,
    pub agent: Option<String>,
    pub summary: Option<String>,
    pub message_count: u64,
}

/// The summary shown after a session's agent: its first 30 bytes after
/// ` · `, or nothing.
pub open spec fn summary_preview(summary: Option<String>) -> Seq<char> {
    match summary {
        Some(x) => " · "@ + cut_at_bytes(x@, 30),
        None => seq![],
    }
}

/// A session's description before any cut: its number of messages, its
/// agent (or `(no agent)`) and its summary.
pub open spec fn raw_session_desc(s: SessionSummary) -> Seq<char> {
    decimal(s.message_count as nat) + " msg · "@ + (match s.agent {
        Some(a) => a@,
        None => "(no agent)"@,
    }) + summary_preview(s.summary)
}

/// A session's description: over 60 bytes, cut to 57 and ended with `...`.
pub open spec fn session_desc(s: SessionSummary) -> Seq<char> {
    let d = raw_session_desc(s);
    if encode_utf8(d).len() > 60 {
        cut_at_bytes(d, 57) + "..."@
    } else {
        d
    }
}

/// Whether the cuts of a session's texts fall on character boundaries:
/// byte 30 of a longer summary, byte 57 of a longer description.
pub open spec fn session_cuts_ok(s: SessionSummary) -> bool {
    &&& match s.summary {
        Some(x) => encode_utf8(x@).len() > 30 ==> is_char_boundary(encode_utf8(x@), 30),
        None => true,
    }
    &&& (encode_utf8(raw_session_desc(s)).len() > 60 ==> is_char_boundary(encode_utf8(raw_session_desc(s)), 57))
}

/// The option for the session at `index`: its id; its number, after `● `
/// for the current session, and its title (or id); its description.
pub open spec fn session_option(s: SessionSummary, index: nat, current: Seq<char>) -> (Seq<char>, Seq<char>, Seq<char>) {
    (
        s.id@,
        (if s.id@ == current { "● "@ } else { seq![] }) + decimal(index + 1) + ". "@ + (match s.title {
            Some(t) => t@,
            None => s.id@,
        }),
        session_desc(s),
    )
}

/// The options for the first `k` sessions, the current one left out when
/// deleting.
pub open spec fn session_options_upto(
    sessions: Seq<SessionSummary>,
    current: Seq<char>,
    delete_mode: bool,
    k: nat,
) -> Seq<(Seq<char>, Seq<char>, Seq<char>)>
    decreases k,
{
    if k == 0 || k > sessions.len() {
        seq![]
    } else {
        let before = session_options_upto(sessions, current, delete_mode, (k - 1) as nat);
        let s = sessions[k - 1];
        if delete_mode && s.id@ == current {
            before
        } else {
            before.push(session_option(s, (k - 1) as nat, current))
        }
    }
}

/// How many sessions the dialog lists: at most 20.
pub open spec fn listed_sessions(n: nat) -> nat {
    if n < 20 {
        n
    } else {
        20
    }
}

fn cut_bytes(s: &str, max: usize) -> (r: String)
    ensures
        r@ == cut_at_bytes(s@, max as nat),
{
    let n = s.as_bytes().len();
    let cut = truncate_str(s, max);
    proof {
        vstd::utf8::encode_utf8_decode_utf8(cut@);
    }
    String::from_str(cut)
}

fn session_option_exec(s: &SessionSummary, index: usize, current: &str) -> (r: DialogOption)
    requires
        index < 20,
    ensures
        r@ == session_option(*s, index as nat, current@),
{
    let mut desc = decimal_string(s.message_count);
    desc.append(" msg · ");
    match &s.agent {
        Some(a) => desc.append(a.as_str()),
        None => desc.append("(no agent)"),
    }
    match &s.summary {
        Some(x) => {
            desc.append(" · ");
            let short = cut_bytes(x.as_str(), 30);
            desc.append(short.as_str());
        },
        None => {},
    }
    proof {
        assert(desc@ == raw_session_desc(*s));
    }
    let n = desc.as_str().as_bytes().len();
    let desc = if n > 60 {
        let mut d = cut_bytes(desc.as_str(), 57);
        d.append("...");
        d
    } else {
        desc
    };
    let mut label = if str_eq(s.id.as_str(), current) { String::from_str("● ") } else { String::new() };
    label.append(decimal_string((index + 1) as u64).as_str());
    label.append(". ");
    match &s.title {
        Some(t) => label.append(t.as_str()),
        None => label.append(s.id.as_str()),
    }
    DialogOption::new(s.id.as_str(), label.as_str(), desc.as_str())
}

/// The session dialog's options for the stored sessions (most recent
/// first): the first 20 of them, the current one left out when deleting
/// (see `session_option`).
pub fn session_list_options(sessions: &Vec<SessionSummary>, current: &str, delete_mode: bool) -> (r: Vec<DialogOption>)
    requires
        forall|i: int| 0 <= i < listed_sessions(sessions.len() as nat) ==> session_cuts_ok(#[trigger] sessions@[i]),
    ensures
        options_view(r@) == session_options_upto(sessions@, current@, delete_mode, listed_sessions(sessions.len() as nat)),
{
    let n = if sessions.len() < 20 { sessions.len() } else { 20 };
    let mut out: Vec<DialogOption> = Vec::new();
    let mut i: usize = 0;
    while i < n
        invariant
            n == listed_sessions(sessions.len() as nat),
            n <= sessions.len(),
            i <= n,
            options_view(out@) == session_options_upto(sessions@, current@, delete_mode, i as nat),
        decreases n - i,
    {
        let s = &sessions[i];
        if delete_mode && str_eq(s.id.as_str(), current) {
        } else {
            let o = session_option_exec(s, i, current);
            let ghost before = options_view(out@);
            out.push(o);
            proof {
                assert(options_view(out@) =~= before.push(o@));
            }
        }
        i += 1;
    }
    out
}

} // verus!
