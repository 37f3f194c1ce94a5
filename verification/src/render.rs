//! A message of the session as the lines shown for it: a header naming
//! who spoke, then the message's text, or one line of it when folded.

use vstd::prelude::*;
use crate::display::DisplayMessage;
use crate::markdown::{blank, lines_view, LineView, MdLine};
use crate::styled::{plain_style, spans_view, tone_style, StyledSpan, TextStyle, Tone};
use crate::text::{lines, lines_of, str_eq, views};
use crate::ui_text::{first_line_of, strip_controls_from, strip_terminal_controls};

verus! {

/// The role a speaker's header is shown in.
pub open spec fn role_tone(role: Seq<char>) -> Tone {
    if role == "user"@ {
        Tone::User
    } else if role == "assistant"@ {
        Tone::Assistant
    } else if role == "thinking"@ || role == "thought"@ {
        Tone::Thinking
    } else if role == "tool"@ {
        Tone::Tool
    } else {
        Tone::System
    }
}

/// Text as shown: terminal control sequences taken out.
pub open spec fn shown(s: Seq<char>) -> Seq<char> {
    strip_controls_from(s, 0, seq![])
}

/// The header of a message: the role in bold, then the note, if any,
/// muted after a colon.
pub open spec fn header_line(role: Seq<char>, meta: Option<Seq<char>>) -> Seq<(Seq<char>, TextStyle)> {
    let head = (role, TextStyle { bold: true, ..tone_style(role_tone(role)) });
    match meta {
        Some(m) => seq![head, (": "@ + shown(m), tone_style(Tone::Muted))],
        None => seq![head],
    }
}

/// A plain line of text: no span when it is empty.
pub open spec fn plain_line(l: Seq<char>) -> LineView {
    if l.len() == 0 {
        blank()
    } else {
        LineView::Spans(seq![(l, tone_style(Tone::Plain))])
    }
}

/// The lines of a message: its header; then, when folded, its first line
/// after `▶ ` and a muted hint that it opens on a click; else the
/// assistant's text as rendered Markdown (`markdown`, rendered from
/// `message_text`) or anyone else's text line by line; and an empty line.
pub open spec fn spec_message_lines(
    role: Seq<char>,
    content: Seq<char>,
    collapsed: bool,
    meta: Option<Seq<char>>,
    markdown: Seq<LineView>,
) -> Seq<LineView> {
    let head = LineView::Spans(header_line(role, meta));
    let text = shown(content);
    if collapsed {
        seq![
            head,
            LineView::Spans(seq![
                ("▶ "@ + first_line_of(text), tone_style(Tone::Plain)),
                ("  [click to expand]"@, tone_style(Tone::Muted)),
            ]),
            blank(),
        ]
    } else if role == "assistant"@ {
        seq![head] + markdown + seq![blank()]
    } else {
        seq![head] + lines(text).map_values(|l: Seq<char>| plain_line(l)) + seq![blank()]
    }
}

pub open spec fn opt_view(o: Option<String>) -> Option<Seq<char>> {
    match o {
        Some(s) => Some(s@),
        None => None,
    }
}

/// A message's text as shown, which is what an assistant's Markdown is
/// rendered from.
pub fn message_text(message: &DisplayMessage) -> (r: String)
    ensures
        r@ == shown(message.content@),
{
    strip_terminal_controls(message.content.as_str())
}

fn role_tone_exec(role: &str) -> (r: Tone)
    ensures
        r == role_tone(role@),
{
    if str_eq(role, "user") {
        Tone::User
    } else if str_eq(role, "assistant") {
        Tone::Assistant
    } else if str_eq(role, "thinking") || str_eq(role, "thought") {
        Tone::Thinking
    } else if str_eq(role, "tool") {
        Tone::Tool
    } else {
        Tone::System
    }
}

fn one_span_line(text: String, style: TextStyle) -> (r: MdLine)
    ensures
        crate::markdown::line_view(r) == LineView::Spans(seq![(text@, style)]),
{
    let mut v: Vec<StyledSpan> = Vec::new();
    v.push(StyledSpan { text: text, style: style });
    proof {
        assert(spans_view(v@) =~= seq![(text@, style)]);
    }
    MdLine::Spans(v)
}

fn blank_line() -> (r: MdLine)
    ensures
        crate::markdown::line_view(r) == blank(),
{
    let v: Vec<StyledSpan> = Vec::new();
    proof {
        assert(spans_view(v@) =~= Seq::<(Seq<char>, TextStyle)>::empty());
    }
    MdLine::Spans(v)
}

/// The lines shown for a message (see `spec_message_lines`); `markdown`
/// is used for an assistant's unfolded message.
pub fn message_lines(message: &DisplayMessage, markdown: Vec<MdLine>) -> (r: Vec<MdLine>)
    ensures
        lines_view(r@) == spec_message_lines(
            message.role@,
            message.content@,
            message.collapsed,
            opt_view(message.meta),
            lines_view(markdown@),
        ),
{
    let role = message.role.as_str();
    let role_style = TextStyle { bold: true, ..plain_style(role_tone_exec(role)) };
    let mut head: Vec<StyledSpan> = Vec::new();
    head.push(StyledSpan { text: String::from_str(role), style: role_style });
    match &message.meta {
        Some(m) => {
            let mut note = String::from_str(": ");
            note.append(strip_terminal_controls(m.as_str()).as_str());
            head.push(StyledSpan { text: note, style: plain_style(Tone::Muted) });
        },
        None => {},
    }
    let head_line = MdLine::Spans(head);
    proof {
        assert(crate::markdown::line_view(head_line) =~= LineView::Spans(header_line(message.role@, opt_view(message.meta))));
    }
    let text = message_text(message);
    let mut out: Vec<MdLine> = Vec::new();
    out.push(head_line);
    let ghost hv = LineView::Spans(header_line(message.role@, opt_view(message.meta)));
    if message.collapsed {
        let ls = lines_of(text.as_str());
        let mut first = String::from_str("▶ ");
        if ls.len() > 0 {
            first.append(ls[0].as_str());
        }
        let mut v: Vec<StyledSpan> = Vec::new();
        v.push(StyledSpan { text: first, style: plain_style(Tone::Plain) });
        v.push(StyledSpan { text: String::from_str("  [click to expand]"), style: plain_style(Tone::Muted) });
        let l2 = MdLine::Spans(v);
        proof {
            if ls.len() > 0 {
                assert(views(ls@)[0] == ls@[0]@);
            }
            assert(crate::markdown::line_view(l2) =~= LineView::Spans(seq![
                ("▶ "@ + first_line_of(text@), tone_style(Tone::Plain)),
                ("  [click to expand]"@, tone_style(Tone::Muted)),
            ]));
        }
        out.push(l2);
        out.push(blank_line());
        proof {
            assert(lines_view(out@) =~= spec_message_lines(
                message.role@, message.content@, message.collapsed, opt_view(message.meta), lines_view(markdown@),
            ));
        }
        return out;
    }
    if str_eq(role, "assistant") {
        let mut md = markdown;
        let ghost mv = lines_view(md@);
        out.append(&mut md);
        out.push(blank_line());
        proof {
            assert(lines_view(out@) =~= seq![hv] + mv + seq![blank()]);
        }
        return out;
    }
    let ls = lines_of(text.as_str());
    let ghost lv = views(ls@);
    let mut i: usize = 0;
    while i < ls.len()
        invariant
            lv == views(ls@),
            lv == lines(text@),
            i <= ls.len(),
            lines_view(out@) =~= seq![hv] + lv.map_values(|l: Seq<char>| plain_line(l)).take(i as int),
        decreases ls.len() - i,
    {
        let l = ls[i].clone();
        let ghost before = lines_view(out@);
        if l.as_str().unicode_len() == 0 {
            out.push(blank_line());
        } else {
            out.push(one_span_line(l, plain_style(Tone::Plain)));
        }
        proof {
            assert(lines_view(out@) =~= before.push(plain_line(lv[i as int])));
            assert(lv.map_values(|l: Seq<char>| plain_line(l)).take(i + 1)
                =~= lv.map_values(|l: Seq<char>| plain_line(l)).take(i as int).push(plain_line(lv[i as int])));
        }
        i += 1;
    }
    out.push(blank_line());
    proof {
        assert(lv.map_values(|l: Seq<char>| plain_line(l)).take(ls.len() as int) =~= lv.map_values(|l: Seq<char>| plain_line(l)));
    }
    out
}

} // verus!
