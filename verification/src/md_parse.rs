//! Markdown source turned into rendered lines: pulldown-cmark parses the
//! text into events, which the builder renders (see `markdown`).
//!
//! Each event is read from the parser in parts: its text-like form, its
//! marks, its block or inline start tag, a block quote's kind, a table's
//! alignments, and its end tag. Each part is taken from a fresh parse of
//! the same text.

use vstd::prelude::*;
use pulldown_cmark::{Alignment, BlockQuoteKind, CodeBlockKind, Event, Options, Parser, Tag, TagEnd};
use crate::markdown::{
    lines_view, md_finish, md_run, md_run_ok, md_start, md_step, md_step_ok, MarkdownBuilder, MdEvent,
    MdLine, MdTag, MdTagEnd, QuoteKind,
};
use crate::width::ColumnAlign;

verus! {

/// The parser options the view renders with: tables, footnotes,
/// strikethrough, task lists and math.
pub const MARKDOWN_OPTIONS: u32 = 1054;

/// The events pulldown-cmark's `Parser::new_ext` gives for `input` with the
/// option bits `opts`, in document order.
pub uninterp spec fn markdown_events(input: Seq<char>, opts: u32) -> Seq<MdEvent>;

/// An event that is neither a start nor an end tag.
pub open spec fn leaf_part(e: MdEvent) -> Option<MdEvent> {
    match e {
        MdEvent::Start(_) | MdEvent::End(_) => None,
        _ => Some(e),
    }
}

/// An event that carries text.
pub open spec fn text_part(e: MdEvent) -> Option<MdEvent> {
    match e {
        MdEvent::SoftBreak | MdEvent::HardBreak | MdEvent::Rule | MdEvent::TaskListMarker(_) => None,
        _ => leaf_part(e),
    }
}

/// A break, a rule or a task marker.
pub open spec fn mark_part(e: MdEvent) -> Option<MdEvent> {
    match e {
        MdEvent::SoftBreak | MdEvent::HardBreak | MdEvent::Rule | MdEvent::TaskListMarker(_) => Some(e),
        _ => None,
    }
}

/// Start tags of the first block group.
pub open spec fn is_block_a(t: MdTag) -> bool {
    t is Paragraph || t is Heading || t is FencedCode || t is IndentedCode || t is HtmlBlock || t is List
}

/// Start tags of the second block group.
pub open spec fn is_block_b(t: MdTag) -> bool {
    t is Item || t is FootnoteDefinition || t is DefinitionList || t is DefinitionListTitle
        || t is DefinitionListDefinition || t is MetadataBlock
}

/// Inline and table-part start tags.
pub open spec fn is_inline(t: MdTag) -> bool {
    t is Emphasis || t is Strong || t is Strikethrough || t is Link || t is Image || t is TableHead
        || t is TableRow || t is TableCell
}

/// The group a start tag is read in: 0 and 1 for the block groups, 2 for
/// inline tags, 3 for block quotes and tables.
pub open spec fn tag_group(t: MdTag) -> int {
    if is_block_a(t) {
        0
    } else if is_block_b(t) {
        1
    } else if is_inline(t) {
        2
    } else {
        3
    }
}

/// A start tag of group `g`.
pub open spec fn start_part(e: MdEvent, g: int) -> Option<MdTag> {
    match e {
        MdEvent::Start(t) => if tag_group(t) == g {
            Some(t)
        } else {
            None
        },
        _ => None,
    }
}

/// A block quote's start, with its kind.
pub open spec fn quote_part(e: MdEvent) -> Option<Option<QuoteKind>> {
    match e {
        MdEvent::Start(MdTag::BlockQuote(k)) => Some(k),
        _ => None,
    }
}

/// A table's start, with its columns' alignments.
pub open spec fn table_part(e: MdEvent) -> Option<Vec<ColumnAlign>> {
    match e {
        MdEvent::Start(MdTag::Table(a)) => Some(a),
        _ => None,
    }
}

/// End tags of the first group.
pub open spec fn is_end_a(t: MdTagEnd) -> bool {
    t is Paragraph || t is Heading || t is BlockQuote || t is CodeBlock || t is HtmlBlock || t is List
        || t is Item || t is FootnoteDefinition || t is DefinitionList || t is DefinitionListTitle
        || t is DefinitionListDefinition
}

pub open spec fn end_part(e: MdEvent, first: bool) -> Option<MdTagEnd> {
    match e {
        MdEvent::End(t) => if is_end_a(t) == first {
            Some(t)
        } else {
            None
        },
        _ => None,
    }
}

/// The number of events (`Iterator::count`).
#[verifier::external_body]
fn md_count(input: &str, opts: u32) -> (r: usize)
    ensures
        r == markdown_events(input@, opts).len(),
{
    Parser::new_ext(input, Options::from_bits_truncate(opts)).count()
}

/// The `i`-th event when it carries text (`Iterator::nth`).
#[verifier::external_body]
fn md_text_at(input: &str, opts: u32, i: usize) -> (r: Option<MdEvent>)
    requires
        i < markdown_events(input@, opts).len(),
    ensures
        r == text_part(markdown_events(input@, opts)[i as int]),
{
    match Parser::new_ext(input, Options::from_bits_truncate(opts)).nth(i) {
        Some(Event::Text(t)) => Some(MdEvent::Text(t.to_string())),
        Some(Event::Code(t)) => Some(MdEvent::Code(t.to_string())),
        Some(Event::InlineMath(t)) => Some(MdEvent::InlineMath(t.to_string())),
        Some(Event::DisplayMath(t)) => Some(MdEvent::DisplayMath(t.to_string())),
        Some(Event::Html(t)) => Some(MdEvent::Html(t.to_string())),
        Some(Event::InlineHtml(t)) => Some(MdEvent::InlineHtml(t.to_string())),
        Some(Event::FootnoteReference(t)) => Some(MdEvent::FootnoteReference(t.to_string())),
        _ => None,
    }
}

/// The `i`-th event when it is a break, a rule or a task marker.
#[verifier::external_body]
fn md_mark_at(input: &str, opts: u32, i: usize) -> (r: Option<MdEvent>)
    requires
        i < markdown_events(input@, opts).len(),
    ensures
        r == mark_part(markdown_events(input@, opts)[i as int]),
{
    match Parser::new_ext(input, Options::from_bits_truncate(opts)).nth(i) {
        Some(Event::SoftBreak) => Some(MdEvent::SoftBreak),
        Some(Event::HardBreak) => Some(MdEvent::HardBreak),
        Some(Event::Rule) => Some(MdEvent::Rule),
        Some(Event::TaskListMarker(c)) => Some(MdEvent::TaskListMarker(c)),
        _ => None,
    }
}

/// The `i`-th event's start tag, when it is of the first block group.
#[verifier::external_body]
fn md_block_a_at(input: &str, opts: u32, i: usize) -> (r: Option<MdTag>)
    requires
        i < markdown_events(input@, opts).len(),
    ensures
        r == start_part(markdown_events(input@, opts)[i as int], 0),
{
    match Parser::new_ext(input, Options::from_bits_truncate(opts)).nth(i) {
        Some(Event::Start(t)) => match t {
            Tag::Paragraph => Some(MdTag::Paragraph),
            Tag::Heading { level, .. } => Some(MdTag::Heading(level as u8)),
            Tag::CodeBlock(CodeBlockKind::Fenced(l)) => Some(MdTag::FencedCode(l.to_string())),
            Tag::CodeBlock(CodeBlockKind::Indented) => Some(MdTag::IndentedCode),
            Tag::HtmlBlock => Some(MdTag::HtmlBlock),
            Tag::List(s) => Some(MdTag::List(s)),
            _ => None,
        },
        _ => None,
    }
}

/// The `i`-th event's start tag, when it is of the second block group.
#[verifier::external_body]
fn md_block_b_at(input: &str, opts: u32, i: usize) -> (r: Option<MdTag>)
    requires
        i < markdown_events(input@, opts).len(),
    ensures
        r == start_part(markdown_events(input@, opts)[i as int], 1),
{
    match Parser::new_ext(input, Options::from_bits_truncate(opts)).nth(i) {
        Some(Event::Start(t)) => match t {
            Tag::Item => Some(MdTag::Item),
            Tag::FootnoteDefinition(l) => Some(MdTag::FootnoteDefinition(l.to_string())),
            Tag::DefinitionList => Some(MdTag::DefinitionList),
            Tag::DefinitionListTitle => Some(MdTag::DefinitionListTitle),
            Tag::DefinitionListDefinition => Some(MdTag::DefinitionListDefinition),
            Tag::MetadataBlock(_) => Some(MdTag::MetadataBlock),
            _ => None,
        },
        _ => None,
    }
}

/// The `i`-th event's start tag, when it is inline or part of a table.
#[verifier::external_body]
fn md_inline_at(input: &str, opts: u32, i: usize) -> (r: Option<MdTag>)
    requires
        i < markdown_events(input@, opts).len(),
    ensures
        r == start_part(markdown_events(input@, opts)[i as int], 2),
{
    match Parser::new_ext(input, Options::from_bits_truncate(opts)).nth(i) {
        Some(Event::Start(t)) => match t {
            Tag::Emphasis => Some(MdTag::Emphasis),
            Tag::Strong => Some(MdTag::Strong),
            Tag::Strikethrough => Some(MdTag::Strikethrough),
            Tag::Link { dest_url, .. } => Some(MdTag::Link(dest_url.to_string())),
            Tag::Image { dest_url, .. } => Some(MdTag::Image(dest_url.to_string())),
            Tag::TableHead => Some(MdTag::TableHead),
            Tag::TableRow => Some(MdTag::TableRow),
            Tag::TableCell => Some(MdTag::TableCell),
            _ => None,
        },
        _ => None,
    }
}

/// The kind of the `i`-th event's block quote, when it starts one.
#[verifier::external_body]
fn md_quote_at(input: &str, opts: u32, i: usize) -> (r: Option<Option<QuoteKind>>)
    requires
        i < markdown_events(input@, opts).len(),
    ensures
        r == quote_part(markdown_events(input@, opts)[i as int]),
{
    match Parser::new_ext(input, Options::from_bits_truncate(opts)).nth(i) {
        Some(Event::Start(Tag::BlockQuote(k))) => Some(match k {
            None => None,
            Some(BlockQuoteKind::Note) => Some(QuoteKind::Note),
            Some(BlockQuoteKind::Tip) => Some(QuoteKind::Tip),
            Some(BlockQuoteKind::Important) => Some(QuoteKind::Important),
            Some(BlockQuoteKind::Warning) => Some(QuoteKind::Warning),
            Some(BlockQuoteKind::Caution) => Some(QuoteKind::Caution),
        }),
        _ => None,
    }
}

/// The column alignments of the `i`-th event's table, when it starts one.
#[verifier::external_body]
fn md_table_at(input: &str, opts: u32, i: usize) -> (r: Option<Vec<ColumnAlign>>)
    requires
        i < markdown_events(input@, opts).len(),
    ensures
        r == table_part(markdown_events(input@, opts)[i as int]),
{
    match Parser::new_ext(input, Options::from_bits_truncate(opts)).nth(i) {
        Some(Event::Start(Tag::Table(a))) => Some(a.into_iter().map(|x| match x {
            Alignment::None => ColumnAlign::Unset,
            Alignment::Left => ColumnAlign::Left,
            Alignment::Center => ColumnAlign::Center,
            Alignment::Right => ColumnAlign::Right,
        }).collect()),
        _ => None,
    }
}

/// The `i`-th event's end tag, when it is of the first group.
#[verifier::external_body]
fn md_end_a_at(input: &str, opts: u32, i: usize) -> (r: Option<MdTagEnd>)
    requires
        i < markdown_events(input@, opts).len(),
    ensures
        r == end_part(markdown_events(input@, opts)[i as int], true),
{
    match Parser::new_ext(input, Options::from_bits_truncate(opts)).nth(i) {
        Some(Event::End(t)) => match t {
            TagEnd::Paragraph => Some(MdTagEnd::Paragraph), TagEnd::Heading(_) => Some(MdTagEnd::Heading),
            TagEnd::BlockQuote(_) => Some(MdTagEnd::BlockQuote), TagEnd::CodeBlock => Some(MdTagEnd::CodeBlock),
            TagEnd::HtmlBlock => Some(MdTagEnd::HtmlBlock), TagEnd::List(_) => Some(MdTagEnd::List),
            TagEnd::Item => Some(MdTagEnd::Item), TagEnd::FootnoteDefinition => Some(MdTagEnd::FootnoteDefinition),
            TagEnd::DefinitionList => Some(MdTagEnd::DefinitionList),
            TagEnd::DefinitionListTitle => Some(MdTagEnd::DefinitionListTitle),
            TagEnd::DefinitionListDefinition => Some(MdTagEnd::DefinitionListDefinition),
            _ => None,
        },
        _ => None,
    }
}

/// The `i`-th event's end tag, when it is of the second group.
#[verifier::external_body]
fn md_end_b_at(input: &str, opts: u32, i: usize) -> (r: Option<MdTagEnd>)
    requires
        i < markdown_events(input@, opts).len(),
    ensures
        r == end_part(markdown_events(input@, opts)[i as int], false),
{
    match Parser::new_ext(input, Options::from_bits_truncate(opts)).nth(i) {
        Some(Event::End(t)) => match t {
            TagEnd::Table => Some(MdTagEnd::Table), TagEnd::TableHead => Some(MdTagEnd::TableHead),
            TagEnd::TableRow => Some(MdTagEnd::TableRow), TagEnd::TableCell => Some(MdTagEnd::TableCell),
            TagEnd::Emphasis => Some(MdTagEnd::Emphasis), TagEnd::Strong => Some(MdTagEnd::Strong),
            TagEnd::Strikethrough => Some(MdTagEnd::Strikethrough), TagEnd::Link => Some(MdTagEnd::Link),
            TagEnd::Image => Some(MdTagEnd::Image), TagEnd::MetadataBlock(_) => Some(MdTagEnd::MetadataBlock),
            _ => None,
        },
        _ => None,
    }
}


/// The `i`-th event, assembled from its parts.
fn md_event_at(input: &str, opts: u32, i: usize) -> (r: MdEvent)
    requires
        i < markdown_events(input@, opts).len(),
    ensures
        r == markdown_events(input@, opts)[i as int],
{
    let ghost e = markdown_events(input@, opts)[i as int];
    match md_text_at(input, opts, i) {
        Some(x) => return x,
        None => {},
    }
    match md_mark_at(input, opts, i) {
        Some(x) => return x,
        None => {},
    }
    match md_block_a_at(input, opts, i) {
        Some(t) => return MdEvent::Start(t),
        None => {},
    }
    match md_block_b_at(input, opts, i) {
        Some(t) => return MdEvent::Start(t),
        None => {},
    }
    match md_inline_at(input, opts, i) {
        Some(t) => return MdEvent::Start(t),
        None => {},
    }
    match md_quote_at(input, opts, i) {
        Some(k) => return MdEvent::Start(MdTag::BlockQuote(k)),
        None => {},
    }
    match md_table_at(input, opts, i) {
        Some(a) => return MdEvent::Start(MdTag::Table(a)),
        None => {},
    }
    match md_end_a_at(input, opts, i) {
        Some(t) => return MdEvent::End(t),
        None => {},
    }
    match md_end_b_at(input, opts, i) {
        Some(t) => return MdEvent::End(t),
        None => {},
    }
    proof {
        match e {
            MdEvent::Start(t) => {
                assert(tag_group(t) == 3);
                assert(t is BlockQuote || t is Table);
            },
            MdEvent::End(t) => {},
            _ => {},
        }
    }
    MdEvent::Rule
}

/// The events of `input` parsed with the options `opts` (see
/// `markdown_events`).
fn md_events(input: &str, opts: u32) -> (r: Vec<MdEvent>)
    ensures
        r@ == markdown_events(input@, opts),
{
    let n = md_count(input, opts);
    let ghost all = markdown_events(input@, opts);
    let mut out: Vec<MdEvent> = Vec::new();
    let mut i: usize = 0;
    while i < n
        invariant
            n == all.len(),
            all == markdown_events(input@, opts),
            i <= n,
            out@ == all.take(i as int),
        decreases n - i,
    {
        let e = md_event_at(input, opts, i);
        out.push(e);
        proof {
            assert(all.take(i + 1) =~= all.take(i as int).push(all[i as int]));
        }
        i += 1;
    }
    proof {
        assert(all.take(n as int) =~= all);
    }
    out
}

/// Markdown text rendered as lines (see `md_run`, `md_finish`), with the
/// parser options of the view; none when an event cannot be taken in
/// (see `md_step_ok`).
pub fn render_markdown(input: &str) -> (r: Option<Vec<MdLine>>)
    ensures
        r is Some <==> md_run_ok(md_start(), markdown_events(input@, MARKDOWN_OPTIONS)),
        r matches Some(v) ==> lines_view(v@) == md_finish(md_run(md_start(), markdown_events(input@, MARKDOWN_OPTIONS))),
{
    let events = md_events(input, MARKDOWN_OPTIONS);
    let ghost all = events@;
    let mut events = events;
    let mut rev: Vec<MdEvent> = Vec::new();
    while events.len() > 0
        invariant
            events@ + rev@.reverse() == all,
        decreases events.len(),
    {
        let ghost before = events@;
        let e = events.pop().unwrap();
        rev.push(e);
        proof {
            assert(before =~= events@.push(e));
            assert(rev@.reverse() =~= seq![e] + rev@.drop_last().reverse());
            assert(events@ + rev@.reverse() =~= before + rev@.drop_last().reverse());
        }
    }
    proof {
        assert(events@ =~= Seq::<MdEvent>::empty());
        assert(rev@.reverse() =~= all);
    }
    let mut b = MarkdownBuilder::new();
    while rev.len() > 0
        invariant
            all == markdown_events(input@, MARKDOWN_OPTIONS),
            md_run_ok(b@, rev@.reverse()) == md_run_ok(md_start(), all),
            md_run(b@, rev@.reverse()) == md_run(md_start(), all),
        decreases rev.len(),
    {
        let ghost before = rev@;
        let e = rev.pop().unwrap();
        proof {
            assert(before =~= rev@.push(e));
            assert(before.reverse()[0] == e);
            assert(before.reverse().skip(1) =~= rev@.reverse());
        }
        if !b.step_ok(&e) {
            proof {
                assert(before.reverse().len() > 0);
                assert(!md_run_ok(b@, before.reverse()));
            }
            return None;
        }
        b.handle(e);
    }
    proof {
        assert(rev@.reverse() =~= Seq::<MdEvent>::empty());
    }
    Some(b.finish())
}

} // verus!
