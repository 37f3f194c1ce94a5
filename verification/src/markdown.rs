//! Markdown rendered as styled lines. A Markdown parser turns the source
//! into events (`MdEvent`); the builder turns the events, one at a time,
//! into lines of styled spans: headings, emphasis, lists, block quotes,
//! tables, links, footnotes, math and embedded HTML. Code blocks are
//! handed on whole, for a highlighter to color.

use vstd::prelude::*;
use crate::html::{html_to_spans, html_to_text, spec_html_to_spans, spec_html_to_text};
use crate::latex::{latex_spec, latex_to_unicode};
use crate::num::{decimal, decimal_string};
use crate::styled::{extend_spans, plain_style, spans_view, tone_style, StyledSpan, TextStyle, Tone};
use crate::text::{lines, lines_of, split_whitespace_str, trim, trim_str, views, words};
use crate::width::{
    build_table, grid_view, repeated, spec_build_table, table_view, ColumnAlign, TablePart, TableSpan,
};

verus! {

/// The kind of a GitHub-style admonition block quote.
#[derive(Clone, Copy, Debug, PartialEq, Eq, Structural)]
pub enum QuoteKind {
    Note,
    Tip,
    Important,
    Warning,
    Caution,
}

/// The start of a Markdown element.
pub enum MdTag {
    Paragraph,
    /// A heading of level one to six.
    Heading(u8),
    BlockQuote(Option<QuoteKind>),
    /// A fenced code block and its info string.
    FencedCode(String),
    IndentedCode,
    HtmlBlock,
    /// A list, numbered from the given number when it is ordered.
    List(Option<u64>),
    Item,
    FootnoteDefinition(String),
    DefinitionList,
    DefinitionListTitle,
    DefinitionListDefinition,
    Table(Vec<ColumnAlign>),
    TableHead,
    TableRow,
    TableCell,
    Emphasis,
    Strong,
    Strikethrough,
    /// A link and its target.
    Link(String),
    /// An image and its source.
    Image(String),
    MetadataBlock,
}

/// The end of a Markdown element.
#[derive(Clone, Copy, Debug, PartialEq, Eq, Structural)]
pub enum MdTagEnd {
    Paragraph,
    Heading,
    BlockQuote,
    CodeBlock,
    HtmlBlock,
    List,
    Item,
    FootnoteDefinition,
    DefinitionList,
    DefinitionListTitle,
    DefinitionListDefinition,
    Table,
    TableHead,
    TableRow,
    TableCell,
    Emphasis,
    Strong,
    Strikethrough,
    Link,
    Image,
    MetadataBlock,
}

/// What a Markdown parser reports, in document order.
pub enum MdEvent {
    Start(MdTag),
    End(MdTagEnd),
    Text(String),
    Code(String),
    InlineMath(String),
    DisplayMath(String),
    Html(String),
    InlineHtml(String),
    FootnoteReference(String),
    SoftBreak,
    HardBreak,
    Rule,
    TaskListMarker(bool),
}

/// A rendered line: styled spans, or a code block in a language (where
/// one is named) that a highlighter colors, each of its lines shown after
/// a muted `│ `.
pub enum MdLine {
    Spans(Vec<StyledSpan>),
    Code { lang: Option<String>, code: String },
}

/// A rendered line by its view.
#[verifier::ext_equal]
pub enum LineView {
    Spans(Seq<(Seq<char>, TextStyle)>),
    Code(Option<Seq<char>>, Seq<char>),
}

pub open spec fn opt_string_view(o: Option<String>) -> Option<Seq<char>> {
    match o {
        Some(s) => Some(s@),
        None => None,
    }
}

pub open spec fn line_view(l: MdLine) -> LineView {
    match l {
        MdLine::Spans(v) => LineView::Spans(spans_view(v@)),
        MdLine::Code { lang, code } => LineView::Code(opt_string_view(lang), code@),
    }
}

pub open spec fn lines_view(v: Seq<MdLine>) -> Seq<LineView> {
    v.map_values(|l: MdLine| line_view(l))
}

/// The state of the builder between events.
#[verifier::ext_equal]
pub struct MdState {
    /// The lines done so far.
    pub lines: Seq<LineView>,
    /// The spans of the line being filled.
    pub current: Seq<(Seq<char>, TextStyle)>,
    pub bold: bool,
    pub italic: bool,
    pub strikethrough: bool,
    /// The target of the open link or image.
    pub link_url: Option<Seq<char>>,
    pub in_link: bool,
    pub code_lang: Option<Seq<char>>,
    pub code_buffer: Seq<char>,
    pub in_code_block: bool,
    /// The open lists, innermost last, with the next number of ordered ones.
    pub list_stack: Seq<Option<u64>>,
    pub quote_depth: nat,
    pub table_alignments: Seq<ColumnAlign>,
    pub table_grid: Seq<Seq<Seq<char>>>,
    pub table_row: Seq<Seq<char>>,
    pub table_cell_buf: Seq<char>,
    pub in_table_cell: bool,
    pub html_buffer: Seq<char>,
    pub in_html_block: bool,
    /// Inside a metadata block, which is skipped.
    pub in_skip: bool,
}

/// A builder that has seen no event.
pub open spec fn md_start() -> MdState {
    MdState {
        lines: seq![],
        current: seq![],
        bold: false,
        italic: false,
        strikethrough: false,
        link_url: None,
        in_link: false,
        code_lang: None,
        code_buffer: seq![],
        in_code_block: false,
        list_stack: seq![],
        quote_depth: 0,
        table_alignments: seq![],
        table_grid: seq![],
        table_row: seq![],
        table_cell_buf: seq![],
        in_table_cell: false,
        html_buffer: seq![],
        in_html_block: false,
        in_skip: false,
    }
}

/// An empty line.
pub open spec fn blank() -> LineView {
    LineView::Spans(seq![])
}

/// The marks `> ` of `n` nested block quotes.
pub open spec fn quote_marks(n: nat) -> Seq<char>
    decreases n,
{
    if n == 0 {
        seq![]
    } else {
        quote_marks((n - 1) as nat) + "> "@
    }
}

/// The spans a line starts with: inside block quotes, their marks.
pub open spec fn line_start(s: MdState) -> Seq<(Seq<char>, TextStyle)> {
    if s.current.len() == 0 && s.quote_depth > 0 {
        seq![(quote_marks(s.quote_depth), tone_style(Tone::Quote))]
    } else {
        s.current
    }
}

/// A span added to the current line (after the quote marks on a new line).
pub open spec fn md_push_span(s: MdState, text: Seq<char>, style: TextStyle) -> MdState {
    MdState { current: line_start(s).push((text, style)), ..s }
}

/// The current line, if it has spans, moved to the lines done.
pub open spec fn md_flush(s: MdState) -> MdState {
    if s.current.len() == 0 {
        s
    } else {
        MdState { lines: s.lines.push(LineView::Spans(s.current)), current: seq![], ..s }
    }
}

/// A line added to the lines done.
pub open spec fn md_push_line(s: MdState, l: LineView) -> MdState {
    MdState { lines: s.lines.push(l), ..s }
}

/// The style of body text: bold, italic and struck as the open elements
/// say, underlined in the link color inside a link.
pub open spec fn md_inline_style(s: MdState) -> TextStyle {
    TextStyle {
        tone: Tone::Body,
        bold: s.bold,
        italic: s.italic,
        crossed: s.strikethrough,
        underlined: s.in_link,
        dim: false,
        reversed: false,
        link: s.in_link,
    }
}

/// Each line of a text as a line of one span in `style`.
pub open spec fn text_lines(t: Seq<char>, style: TextStyle) -> Seq<LineView> {
    lines(t).map_values(|l: Seq<char>| LineView::Spans(seq![(l, style)]))
}

/// The lines of text added to the lines done.
pub open spec fn md_push_lines(s: MdState, ls: Seq<LineView>) -> MdState {
    MdState { lines: s.lines + ls, ..s }
}

/// The label shown for an admonition.
pub open spec fn quote_label(k: QuoteKind) -> Seq<char> {
    match k {
        QuoteKind::Note => "Note"@,
        QuoteKind::Tip => "Tip"@,
        QuoteKind::Important => "Important"@,
        QuoteKind::Warning => "Warning"@,
        QuoteKind::Caution => "Caution"@,
    }
}

/// `n` copies of two spaces.
pub open spec fn indent(n: nat) -> Seq<char>
    decreases n,
{
    if n == 0 {
        seq![]
    } else {
        indent((n - 1) as nat) + "  "@
    }
}

/// The language of a fenced code block: the first word of its info string.
pub open spec fn fence_lang(info: Seq<char>) -> Option<Seq<char>> {
    if words(info).len() > 0 {
        Some(words(info)[0])
    } else {
        None
    }
}

/// The style of a table part.
pub open spec fn part_style(p: TablePart) -> TextStyle {
    match p {
        TablePart::Rule => tone_style(Tone::Muted),
        TablePart::Header => tone_style(Tone::Title),
        TablePart::Body => tone_style(Tone::Plain),
    }
}

/// A table line as a line of styled spans.
pub open spec fn table_line(l: Seq<(Seq<char>, TablePart)>) -> LineView {
    LineView::Spans(l.map_values(|p: (Seq<char>, TablePart)| (p.0, part_style(p.1))))
}

/// The rule drawn for a thematic break.
pub open spec fn rule_text() -> Seq<char> {
    repeated('─', 24)
}

/// What the start of an element does.
pub open spec fn md_start_tag(s: MdState, tag: MdTag) -> MdState {
    match tag {
        MdTag::Paragraph => s,
        MdTag::Heading(level) => md_push_span(md_flush(s), repeated('#', level as nat) + " "@, tone_style(Tone::Heading)),
        MdTag::BlockQuote(kind) => {
            let s1 = MdState { quote_depth: s.quote_depth + 1, ..s };
            match kind {
                Some(k) => md_push_line(
                    md_flush(s1),
                    LineView::Spans(seq![("["@ + quote_label(k) + "]"@, tone_style(Tone::Assistant))]),
                ),
                None => s1,
            }
        },
        MdTag::FencedCode(info) => MdState {
            in_code_block: true,
            code_buffer: seq![],
            code_lang: fence_lang(info@),
            ..md_flush(s)
        },
        MdTag::IndentedCode => MdState { in_code_block: true, code_buffer: seq![], code_lang: None, ..md_flush(s) },
        MdTag::HtmlBlock => MdState { in_html_block: true, html_buffer: seq![], ..md_flush(s) },
        MdTag::List(start) => MdState { list_stack: s.list_stack.push(start), ..s },
        MdTag::Item => {
            let f = md_flush(s);
            let n = f.list_stack.len();
            let ind = indent(if n > 0 { (n - 1) as nat } else { 0 });
            if n > 0 && f.list_stack[n - 1] is Some {
                let k = f.list_stack[n - 1]->0;
                let f2 = MdState { list_stack: f.list_stack.update(n - 1, Some((k + 1) as u64)), ..f };
                md_push_span(f2, ind + decimal(k as nat) + ". "@, tone_style(Tone::ListMarker))
            } else {
                md_push_span(f, ind + "• "@, tone_style(Tone::ListMarker))
            }
        },
        MdTag::FootnoteDefinition(label) => md_push_span(md_flush(s), "[^"@ + label@ + "]: "@, tone_style(Tone::Muted)),
        MdTag::DefinitionList => md_flush(s),
        MdTag::DefinitionListTitle => md_flush(s),
        MdTag::DefinitionListDefinition => md_flush(s),
        MdTag::Table(aligns) => MdState { table_alignments: aligns@, table_grid: seq![], ..md_flush(s) },
        MdTag::TableHead => MdState { table_row: seq![], ..s },
        MdTag::TableRow => MdState { table_row: seq![], ..s },
        MdTag::TableCell => MdState { in_table_cell: true, table_cell_buf: seq![], ..s },
        MdTag::Emphasis => MdState { italic: true, ..s },
        MdTag::Strong => MdState { bold: true, ..s },
        MdTag::Strikethrough => MdState { strikethrough: true, ..s },
        MdTag::Link(dest) => MdState { link_url: Some(dest@), in_link: true, ..s },
        MdTag::Image(dest) => MdState { link_url: Some(dest@), ..s },
        MdTag::MetadataBlock => MdState { in_skip: true, ..s },
    }
}

/// The target of a closed link or image, shown muted in parentheses.
pub open spec fn md_close_link(s: MdState) -> MdState {
    match s.link_url {
        Some(url) => md_push_span(MdState { link_url: None, ..s }, " ("@ + url + ")"@, tone_style(Tone::Muted)),
        None => s,
    }
}

/// What the end of an element does.
pub open spec fn md_end_tag(s: MdState, tag: MdTagEnd) -> MdState {
    match tag {
        MdTagEnd::Paragraph => md_push_line(md_flush(s), blank()),
        MdTagEnd::Heading => md_push_line(md_flush(s), blank()),
        MdTagEnd::BlockQuote => {
            let f = md_flush(s);
            md_push_line(MdState { quote_depth: if f.quote_depth > 0 { (f.quote_depth - 1) as nat } else { 0 }, ..f }, blank())
        },
        MdTagEnd::CodeBlock => MdState {
            lines: s.lines.push(LineView::Code(s.code_lang, s.code_buffer)).push(blank()),
            code_buffer: seq![],
            in_code_block: false,
            code_lang: None,
            ..s
        },
        MdTagEnd::HtmlBlock => s,
        MdTagEnd::List => md_push_line(
            MdState { list_stack: if s.list_stack.len() > 0 { s.list_stack.drop_last() } else { s.list_stack }, ..s },
            blank(),
        ),
        MdTagEnd::Item => md_flush(s),
        MdTagEnd::FootnoteDefinition => md_push_line(md_flush(s), blank()),
        MdTagEnd::DefinitionList => md_flush(s),
        MdTagEnd::DefinitionListTitle => md_flush(s),
        MdTagEnd::DefinitionListDefinition => md_flush(s),
        MdTagEnd::Table => MdState {
            lines: s.lines + spec_build_table(s.table_grid, s.table_alignments).map_values(
                |l: Seq<(Seq<char>, TablePart)>| table_line(l),
            ) + seq![blank()],
            table_grid: seq![],
            table_alignments: seq![],
            ..s
        },
        MdTagEnd::TableHead => MdState { table_grid: s.table_grid.push(s.table_row), table_row: seq![], ..s },
        MdTagEnd::TableRow => MdState { table_grid: s.table_grid.push(s.table_row), table_row: seq![], ..s },
        MdTagEnd::TableCell => MdState {
            in_table_cell: false,
            table_row: s.table_row.push(trim(s.table_cell_buf)),
            table_cell_buf: seq![],
            ..s
        },
        MdTagEnd::Emphasis => MdState { italic: false, ..s },
        MdTagEnd::Strong => MdState { bold: false, ..s },
        MdTagEnd::Strikethrough => MdState { strikethrough: false, ..s },
        MdTagEnd::Link => md_close_link(MdState { in_link: false, ..s }),
        MdTagEnd::Image => md_close_link(s),
        MdTagEnd::MetadataBlock => s,
    }
}

/// What an event does to the builder. A metadata block is skipped to its
/// end; an HTML block is collected and shown as muted plain text; a table
/// cell collects its text; otherwise each event adds its text, styled, to
/// the current line or its lines to the lines done.
pub open spec fn md_step(s: MdState, e: MdEvent) -> MdState {
    if s.in_skip {
        match e {
            MdEvent::End(MdTagEnd::MetadataBlock) => MdState { in_skip: false, ..s },
            _ => s,
        }
    } else if s.in_html_block {
        match e {
            MdEvent::End(MdTagEnd::HtmlBlock) => md_push_line(
                md_push_lines(
                    MdState { in_html_block: false, html_buffer: seq![], ..s },
                    text_lines(spec_html_to_text(s.html_buffer), tone_style(Tone::Muted)),
                ),
                blank(),
            ),
            MdEvent::Text(t) => MdState { html_buffer: s.html_buffer + t@, ..s },
            MdEvent::Html(t) => MdState { html_buffer: s.html_buffer + t@, ..s },
            MdEvent::InlineHtml(t) => MdState { html_buffer: s.html_buffer + t@, ..s },
            _ => s,
        }
    } else if s.in_table_cell {
        match e {
            MdEvent::End(MdTagEnd::TableCell) => MdState {
                in_table_cell: false,
                table_row: s.table_row.push(trim(s.table_cell_buf)),
                table_cell_buf: seq![],
                ..s
            },
            MdEvent::Text(t) => MdState { table_cell_buf: s.table_cell_buf + t@, ..s },
            MdEvent::Code(t) => MdState { table_cell_buf: s.table_cell_buf + t@, ..s },
            MdEvent::SoftBreak => MdState { table_cell_buf: s.table_cell_buf.push(' '), ..s },
            _ => s,
        }
    } else {
        match e {
            MdEvent::Start(tag) => md_start_tag(s, tag),
            MdEvent::End(tag) => md_end_tag(s, tag),
            MdEvent::Text(t) => if s.in_code_block {
                MdState { code_buffer: s.code_buffer + t@, ..s }
            } else {
                md_push_span(s, latex_spec(t@), md_inline_style(s))
            },
            MdEvent::Code(t) => md_push_span(s, t@, tone_style(Tone::Code)),
            MdEvent::InlineMath(t) => md_push_span(s, latex_spec(t@), tone_style(Tone::Code)),
            MdEvent::DisplayMath(t) => md_push_line(
                md_push_lines(md_flush(s), text_lines(latex_spec(t@), tone_style(Tone::Code))),
                blank(),
            ),
            MdEvent::Html(t) => MdState { current: line_start(s) + spec_html_to_spans(t@), ..s },
            MdEvent::InlineHtml(t) => MdState { current: line_start(s) + spec_html_to_spans(t@), ..s },
            MdEvent::FootnoteReference(l) => md_push_span(s, "[^"@ + l@ + "]"@, tone_style(Tone::Muted)),
            MdEvent::SoftBreak => md_push_span(s, " "@, md_inline_style(s)),
            MdEvent::HardBreak => md_flush(s),
            MdEvent::Rule => md_push_line(
                md_push_line(md_flush(s), LineView::Spans(seq![(rule_text(), tone_style(Tone::Muted))])),
                blank(),
            ),
            MdEvent::TaskListMarker(checked) => md_push_span(
                s,
                if checked { "[x] "@ } else { "[ ] "@ },
                tone_style(Tone::Muted),
            ),
        }
    }
}

/// Whether an event can be handled without a counter running over: an
/// item of an ordered list numbered `u64::MAX`, or a block quote nested
/// `usize::MAX` deep, cannot take one more.
pub open spec fn md_step_ok(s: MdState, e: MdEvent) -> bool {
    if s.in_skip || s.in_html_block || s.in_table_cell {
        true
    } else {
        match e {
            MdEvent::Start(MdTag::Item) => {
                let f = md_flush(s);
                !(f.list_stack.len() > 0 && f.list_stack.last() == Some(u64::MAX))
            },
            MdEvent::Start(MdTag::BlockQuote(_)) => s.quote_depth < usize::MAX,
            _ => true,
        }
    }
}

/// The lines without the empty lines at their end.
pub open spec fn drop_blank_tail(ls: Seq<LineView>) -> Seq<LineView>
    decreases ls.len(),
{
    if ls.len() > 0 && ls.last() == blank() {
        drop_blank_tail(ls.drop_last())
    } else {
        ls
    }
}

/// The rendered lines once the events are over: the current line ended,
/// and the empty lines at the end dropped.
pub open spec fn md_finish(s: MdState) -> Seq<LineView> {
    drop_blank_tail(md_flush(s).lines)
}


/// Builds rendered lines from Markdown events (see `md_step`).
pub struct MarkdownBuilder {
    lines: Vec<MdLine>,
    current: Vec<StyledSpan>,
    bold: bool,
    italic: bool,
    strikethrough: bool,
    link_url: Option<String>,
    in_link: bool,
    code_lang: Option<String>,
    code_buffer: String,
    in_code_block: bool,
    list_stack: Vec<Option<u64>>,
    quote_depth: usize,
    table_alignments: Vec<ColumnAlign>,
    table_grid: Vec<Vec<String>>,
    table_row: Vec<String>,
    table_cell_buf: String,
    in_table_cell: bool,
    html_buffer: String,
    in_html_block: bool,
    in_skip: bool,
}

impl View for MarkdownBuilder {
    type V = MdState;

    closed spec fn view(&self) -> MdState {
        MdState {
            lines: lines_view(self.lines@),
            current: spans_view(self.current@),
            bold: self.bold,
            italic: self.italic,
            strikethrough: self.strikethrough,
            link_url: opt_string_view(self.link_url),
            in_link: self.in_link,
            code_lang: opt_string_view(self.code_lang),
            code_buffer: self.code_buffer@,
            in_code_block: self.in_code_block,
            list_stack: self.list_stack@,
            quote_depth: self.quote_depth as nat,
            table_alignments: self.table_alignments@,
            table_grid: grid_view(self.table_grid@),
            table_row: views(self.table_row@),
            table_cell_buf: self.table_cell_buf@,
            in_table_cell: self.in_table_cell,
            html_buffer: self.html_buffer@,
            in_html_block: self.in_html_block,
            in_skip: self.in_skip,
        }
    }
}

fn take_string(s: &mut String) -> (r: String)
    ensures
        r@ == old(s)@,
        final(s)@ == Seq::<char>::empty(),
{
    let mut t = String::new();
    std::mem::swap(&mut t, s);
    t
}

fn quote_marks_exec(n: usize) -> (r: String)
    ensures
        r@ == quote_marks(n as nat),
{
    let mut out = String::new();
    let mut k: usize = 0;
    while k < n
        invariant
            k <= n,
            out@ == quote_marks(k as nat),
        decreases n - k,
    {
        out.append("> ");
        k += 1;
    }
    out
}

fn indent_exec(n: usize) -> (r: String)
    ensures
        r@ == indent(n as nat),
{
    let mut out = String::new();
    let mut k: usize = 0;
    while k < n
        invariant
            k <= n,
            out@ == indent(k as nat),
        decreases n - k,
    {
        out.append("  ");
        k += 1;
    }
    out
}

fn repeated_exec(c: char, n: usize) -> (r: String)
    ensures
        r@ == repeated(c, n as nat),
{
    let mut out = String::new();
    let mut k: usize = 0;
    while k < n
        invariant
            k <= n,
            out@ == repeated(c, k as nat),
        decreases n - k,
    {
        crate::text::push_char(&mut out, c);
        k += 1;
        proof {
            assert(out@ =~= repeated(c, k as nat));
        }
    }
    out
}

fn concat3(a: &str, b: &str, c: &str) -> (r: String)
    ensures
        r@ == a@ + b@ + c@,
{
    let mut m = String::from_str(a);
    m.append(b);
    m.append(c);
    m
}

fn part_style_exec(p: TablePart) -> (r: TextStyle)
    ensures
        r == part_style(p),
{
    match p {
        TablePart::Rule => plain_style(Tone::Muted),
        TablePart::Header => plain_style(Tone::Title),
        TablePart::Body => plain_style(Tone::Plain),
    }
}

fn table_line_exec(l: &Vec<TableSpan>) -> (r: MdLine)
    ensures
        line_view(r) == table_line(crate::width::spans_view(l@)),
{
    let ghost lv = crate::width::spans_view(l@);
    let mut out: Vec<StyledSpan> = Vec::new();
    let mut i: usize = 0;
    while i < l.len()
        invariant
            lv == crate::width::spans_view(l@),
            i <= l.len(),
            spans_view(out@) =~= lv.take(i as int).map_values(|p: (Seq<char>, TablePart)| (p.0, part_style(p.1))),
        decreases l.len() - i,
    {
        let ghost before = spans_view(out@);
        let t = l[i].text.clone();
        let st = part_style_exec(l[i].part);
        out.push(StyledSpan { text: t, style: st });
        proof {
            assert(spans_view(out@) =~= before.push((t@, st)));
            assert(lv.take(i + 1) =~= lv.take(i as int).push(lv[i as int]));
        }
        i += 1;
    }
    proof {
        assert(lv.take(l.len() as int) =~= lv);
    }
    MdLine::Spans(out)
}

impl MarkdownBuilder {
    /// A builder that has seen no event.
    pub fn new() -> (r: Self)
        ensures
            r@ == md_start(),
    {
        let r = MarkdownBuilder {
            lines: Vec::new(),
            current: Vec::new(),
            bold: false,
            italic: false,
            strikethrough: false,
            link_url: None,
            in_link: false,
            code_lang: None,
            code_buffer: String::new(),
            in_code_block: false,
            list_stack: Vec::new(),
            quote_depth: 0,
            table_alignments: Vec::new(),
            table_grid: Vec::new(),
            table_row: Vec::new(),
            table_cell_buf: String::new(),
            in_table_cell: false,
            html_buffer: String::new(),
            in_html_block: false,
            in_skip: false,
        };
        proof {
            assert(r@ =~= md_start());
        }
        r
    }
}


impl MarkdownBuilder {
    fn inline_style(&self) -> (r: TextStyle)
        ensures
            r == md_inline_style(self@),
    {
        TextStyle {
            tone: Tone::Body,
            bold: self.bold,
            italic: self.italic,
            crossed: self.strikethrough,
            underlined: self.in_link,
            dim: false,
            reversed: false,
            link: self.in_link,
        }
    }

    /// Starts a line inside block quotes with their marks.
    fn begin_line(&mut self)
        ensures
            final(self)@ == (MdState { current: line_start(old(self)@), ..old(self)@ }),
    {
        if self.current.len() == 0 && self.quote_depth > 0 {
            let marks = quote_marks_exec(self.quote_depth);
            self.current.push(StyledSpan { text: marks, style: plain_style(Tone::Quote) });
            proof {
                assert(spans_view(self.current@) =~= seq![(marks@, tone_style(Tone::Quote))]);
            }
        }
        proof {
            assert(self@ =~= (MdState { current: line_start(old(self)@), ..old(self)@ }));
        }
    }

    fn push_span(&mut self, text: String, style: TextStyle)
        ensures
            final(self)@ == md_push_span(old(self)@, text@, style),
    {
        self.begin_line();
        let ghost before = spans_view(self.current@);
        self.current.push(StyledSpan { text: text, style: style });
        proof {
            assert(spans_view(self.current@) =~= before.push((text@, style)));
            assert(self@ =~= md_push_span(old(self)@, text@, style));
        }
    }

    fn flush(&mut self)
        ensures
            final(self)@ == md_flush(old(self)@),
    {
        if self.current.len() == 0 {
            return;
        }
        let mut cur: Vec<StyledSpan> = Vec::new();
        std::mem::swap(&mut cur, &mut self.current);
        let ghost before = lines_view(self.lines@);
        let line = MdLine::Spans(cur);
        self.lines.push(line);
        proof {
            assert(lines_view(self.lines@) =~= before.push(line_view(line)));
            assert(spans_view(self.current@) =~= Seq::<(Seq<char>, TextStyle)>::empty());
            assert(self@ =~= md_flush(old(self)@));
        }
    }

    fn push_line(&mut self, line: MdLine)
        ensures
            final(self)@ == md_push_line(old(self)@, line_view(line)),
    {
        let ghost before = lines_view(self.lines@);
        let ghost lv = line_view(line);
        self.lines.push(line);
        proof {
            assert(lines_view(self.lines@) =~= before.push(lv));
            assert(self@ =~= md_push_line(old(self)@, lv));
        }
    }

    fn push_blank(&mut self)
        ensures
            final(self)@ == md_push_line(old(self)@, blank()),
    {
        let line = MdLine::Spans(Vec::new());
        proof {
            assert(line_view(line) =~= blank());
        }
        self.push_line(line);
    }

    /// Each line of `t` as a line of one span in `style`.
    fn push_text_lines(&mut self, t: &str, style: TextStyle)
        ensures
            final(self)@ == md_push_lines(old(self)@, text_lines(t@, style)),
    {
        let ls = lines_of(t);
        let ghost lv = views(ls@);
        let ghost start = self@;
        let mut i: usize = 0;
        while i < ls.len()
            invariant
                lv == views(ls@),
                lv == lines(t@),
                i <= ls.len(),
                self@ == md_push_lines(start, text_lines(t@, style).take(i as int)),
            decreases ls.len() - i,
        {
            let mut v: Vec<StyledSpan> = Vec::new();
            let l = ls[i].clone();
            v.push(StyledSpan { text: l, style: style });
            let line = MdLine::Spans(v);
            proof {
                assert(line_view(line) =~= LineView::Spans(seq![(lv[i as int], style)]));
            }
            self.push_line(line);
            proof {
                assert(text_lines(t@, style).take(i + 1) =~= text_lines(t@, style).take(i as int).push(
                    LineView::Spans(seq![(lv[i as int], style)]),
                ));
                assert(self@ =~= md_push_lines(start, text_lines(t@, style).take(i + 1)));
            }
            i += 1;
        }
        proof {
            assert(text_lines(t@, style).take(ls.len() as int) =~= text_lines(t@, style));
        }
    }
}


fn quote_label_exec(k: QuoteKind) -> (r: &'static str)
    ensures
        r@ == quote_label(k),
{
    match k {
        QuoteKind::Note => "Note",
        QuoteKind::Tip => "Tip",
        QuoteKind::Important => "Important",
        QuoteKind::Warning => "Warning",
        QuoteKind::Caution => "Caution",
    }
}

fn fence_lang_exec(info: &str) -> (r: Option<String>)
    ensures
        opt_string_view(r) == fence_lang(info@),
{
    let ws = split_whitespace_str(info);
    if ws.len() > 0 {
        proof {
            assert(views(ws@)[0] == ws@[0]@);
        }
        Some(ws[0].clone())
    } else {
        None
    }
}

impl MarkdownBuilder {
    fn start_item(&mut self)
        requires
            !(old(self)@.list_stack.len() > 0 && old(self)@.list_stack.last() == Some(u64::MAX)),
        ensures
            final(self)@ == md_start_tag(old(self)@, MdTag::Item),
    {
        let ghost s0 = self@;
        self.flush();
        let n = self.list_stack.len();
        let mut marker = indent_exec(if n > 0 { n - 1 } else { 0 });
        if n > 0 && self.list_stack[n - 1].is_some() {
            let k = self.list_stack[n - 1].unwrap();
            self.list_stack.set(n - 1, Some(k + 1));
            marker.append(decimal_string(k).as_str());
            marker.append(". ");
        } else {
            marker.append("• ");
        }
        self.push_span(marker, plain_style(Tone::ListMarker));
        proof {
            assert(self@ =~= md_start_tag(s0, MdTag::Item));
        }
    }

    fn start_quote(&mut self, kind: Option<QuoteKind>)
        requires
            old(self)@.quote_depth < usize::MAX,
        ensures
            final(self)@ == md_start_tag(old(self)@, MdTag::BlockQuote(kind)),
    {
        let ghost s0 = self@;
        self.quote_depth = self.quote_depth + 1;
        match kind {
            Some(k) => {
                self.flush();
                let mut v: Vec<StyledSpan> = Vec::new();
                let label = concat3("[", quote_label_exec(k), "]");
                v.push(StyledSpan { text: label, style: plain_style(Tone::Assistant) });
                let line = MdLine::Spans(v);
                proof {
                    assert(line_view(line) =~= LineView::Spans(
                        seq![("["@ + quote_label(k) + "]"@, tone_style(Tone::Assistant))],
                    ));
                }
                self.push_line(line);
            },
            None => {},
        }
        proof {
            assert(self@ =~= md_start_tag(s0, MdTag::BlockQuote(kind)));
        }
    }

    fn start_block(&mut self, tag: MdTag)
        requires
            tag is Heading || tag is FencedCode || tag is IndentedCode || tag is HtmlBlock
                || tag is FootnoteDefinition || tag is Table,
        ensures
            final(self)@ == md_start_tag(old(self)@, tag),
    {
        let ghost s0 = self@;
        self.flush();
        let ghost s1 = self@;
        match tag {
            MdTag::Heading(level) => {
                let mut h = repeated_exec('#', level as usize);
                h.append(" ");
                self.push_span(h, plain_style(Tone::Heading));
            },
            MdTag::FencedCode(info) => {
                self.in_code_block = true;
                self.code_buffer = String::new();
                self.code_lang = fence_lang_exec(info.as_str());
                proof {
                    assert(self@ =~= md_start_tag(s0, tag));
                }
            },
            MdTag::IndentedCode => {
                self.in_code_block = true;
                self.code_buffer = String::new();
                self.code_lang = None;
                proof {
                    assert(self@ =~= md_start_tag(s0, tag));
                }
            },
            MdTag::HtmlBlock => {
                self.in_html_block = true;
                self.html_buffer = String::new();
                proof {
                    assert(self@ =~= md_start_tag(s0, tag));
                }
            },
            MdTag::FootnoteDefinition(label) => {
                let m = concat3("[^", label.as_str(), "]: ");
                self.push_span(m, plain_style(Tone::Muted));
            },
            MdTag::Table(aligns) => {
                self.table_alignments = aligns;
                self.table_grid = Vec::new();
                proof {
                    assert(grid_view(self.table_grid@) =~= Seq::<Seq<Seq<char>>>::empty());
                    assert(self@ =~= md_start_tag(s0, tag));
                }
            },
            _ => {},
        }
    }

    fn start(&mut self, tag: MdTag)
        requires
            tag is Item ==> !(old(self)@.list_stack.len() > 0 && old(self)@.list_stack.last() == Some(u64::MAX)),
            tag is BlockQuote ==> old(self)@.quote_depth < usize::MAX,
        ensures
            final(self)@ == md_start_tag(old(self)@, tag),
    {
        let ghost s0 = self@;
        match tag {
            MdTag::Item => self.start_item(),
            MdTag::BlockQuote(kind) => self.start_quote(kind),
            MdTag::Heading(_) | MdTag::FencedCode(_) | MdTag::IndentedCode | MdTag::HtmlBlock
            | MdTag::FootnoteDefinition(_) | MdTag::Table(_) => self.start_block(tag),
            MdTag::Paragraph => {},
            MdTag::List(start) => {
                self.list_stack.push(start);
                proof {
                    assert(self@ =~= md_start_tag(s0, tag));
                }
            },
            MdTag::DefinitionList => self.flush(),
            MdTag::DefinitionListTitle => self.flush(),
            MdTag::DefinitionListDefinition => self.flush(),
            MdTag::TableHead => {
                self.table_row = Vec::new();
                proof {
                    assert(views(self.table_row@) =~= Seq::<Seq<char>>::empty());
                    assert(self@ =~= md_start_tag(s0, tag));
                }
            },
            MdTag::TableRow => {
                self.table_row = Vec::new();
                proof {
                    assert(views(self.table_row@) =~= Seq::<Seq<char>>::empty());
                    assert(self@ =~= md_start_tag(s0, tag));
                }
            },
            MdTag::TableCell => {
                self.in_table_cell = true;
                self.table_cell_buf = String::new();
                proof {
                    assert(self@ =~= md_start_tag(s0, tag));
                }
            },
            MdTag::Emphasis => {
                self.italic = true;
                proof {
                    assert(self@ =~= md_start_tag(s0, tag));
                }
            },
            MdTag::Strong => {
                self.bold = true;
                proof {
                    assert(self@ =~= md_start_tag(s0, tag));
                }
            },
            MdTag::Strikethrough => {
                self.strikethrough = true;
                proof {
                    assert(self@ =~= md_start_tag(s0, tag));
                }
            },
            MdTag::Link(dest) => {
                self.link_url = Some(dest);
                self.in_link = true;
                proof {
                    assert(self@ =~= md_start_tag(s0, tag));
                }
            },
            MdTag::Image(dest) => {
                self.link_url = Some(dest);
                proof {
                    assert(self@ =~= md_start_tag(s0, tag));
                }
            },
            MdTag::MetadataBlock => {
                self.in_skip = true;
                proof {
                    assert(self@ =~= md_start_tag(s0, tag));
                }
            },
        }
    }
}


impl MarkdownBuilder {
    fn close_link(&mut self)
        ensures
            final(self)@ == md_close_link(old(self)@),
    {
        let ghost s0 = self@;
        let url = self.link_url.take();
        match url {
            Some(u) => {
                let m = concat3(" (", u.as_str(), ")");
                self.push_span(m, plain_style(Tone::Muted));
                proof {
                    assert(self@ =~= md_close_link(s0));
                }
            },
            None => {
                proof {
                    assert(self@ =~= md_close_link(s0));
                }
            },
        }
    }

    fn append_lines(&mut self, more: Vec<MdLine>)
        ensures
            final(self)@ == md_push_lines(old(self)@, lines_view(more@)),
    {
        let ghost s0 = self@;
        let ghost l0 = self.lines@;
        let mut more = more;
        let ghost m = more@;
        self.lines.append(&mut more);
        proof {
            assert(lines_view(self.lines@) =~= lines_view(l0) + lines_view(m));
            assert(self@ =~= md_push_lines(s0, lines_view(m)));
        }
    }

    fn end_table(&mut self)
        ensures
            final(self)@ == md_end_tag(old(self)@, MdTagEnd::Table),
    {
        let ghost s0 = self@;
        let mut grid: Vec<Vec<String>> = Vec::new();
        std::mem::swap(&mut grid, &mut self.table_grid);
        let mut aligns: Vec<ColumnAlign> = Vec::new();
        std::mem::swap(&mut aligns, &mut self.table_alignments);
        let table = build_table(&grid, &aligns);
        let ghost tv = table_view(table@);
        let ghost conv = tv.map_values(|l: Seq<(Seq<char>, TablePart)>| table_line(l));
        let mut out: Vec<MdLine> = Vec::new();
        let mut i: usize = 0;
        while i < table.len()
            invariant
                tv == table_view(table@),
                conv == tv.map_values(|l: Seq<(Seq<char>, TablePart)>| table_line(l)),
                i <= table.len(),
                lines_view(out@) =~= conv.take(i as int),
            decreases table.len() - i,
        {
            let line = table_line_exec(&table[i]);
            let ghost before = lines_view(out@);
            out.push(line);
            proof {
                assert(tv[i as int] == crate::width::spans_view(table@[i as int]@));
                assert(lines_view(out@) =~= before.push(line_view(line)));
                assert(conv.take(i + 1) =~= conv.take(i as int).push(conv[i as int]));
            }
            i += 1;
        }
        proof {
            assert(conv.take(table.len() as int) =~= conv);
            assert(grid_view(self.table_grid@) =~= Seq::<Seq<Seq<char>>>::empty());
        }
        self.append_lines(out);
        self.push_blank();
        proof {
            assert(self@ =~= md_end_tag(s0, MdTagEnd::Table));
        }
    }

    fn end_cell(&mut self)
        ensures
            final(self)@ == md_end_tag(old(self)@, MdTagEnd::TableCell),
    {
        let ghost s0 = self@;
        self.in_table_cell = false;
        let cell = take_string(&mut self.table_cell_buf);
        let t = trim_str(cell.as_str());
        let ghost before = views(self.table_row@);
        self.table_row.push(t);
        proof {
            assert(views(self.table_row@) =~= before.push(t@));
            assert(self@ =~= md_end_tag(s0, MdTagEnd::TableCell));
        }
    }

    fn end_block(&mut self, tag: MdTagEnd)
        requires
            tag is BlockQuote || tag is CodeBlock || tag is List || tag is TableHead || tag is TableRow,
        ensures
            final(self)@ == md_end_tag(old(self)@, tag),
    {
        let ghost s0 = self@;
        match tag {
            MdTagEnd::BlockQuote => {
                self.flush();
                self.quote_depth = if self.quote_depth > 0 { self.quote_depth - 1 } else { 0 };
                self.push_blank();
                proof {
                    assert(self@ =~= md_end_tag(s0, tag));
                }
            },
            MdTagEnd::CodeBlock => {
                let code = take_string(&mut self.code_buffer);
                let lang = self.code_lang.take();
                let line = MdLine::Code { lang: lang, code: code };
                self.push_line(line);
                self.push_blank();
                self.in_code_block = false;
                proof {
                    assert(self@ =~= md_end_tag(s0, tag));
                }
            },
            MdTagEnd::List => {
                self.list_stack.pop();
                self.push_blank();
                proof {
                    if s0.list_stack.len() > 0 {
                        assert(s0.list_stack.drop_last() =~= s0.list_stack.subrange(0, s0.list_stack.len() - 1));
                    }
                    assert(self@ =~= md_end_tag(s0, tag));
                }
            },
            _ => {
                let mut row: Vec<String> = Vec::new();
                std::mem::swap(&mut row, &mut self.table_row);
                let ghost before = grid_view(self.table_grid@);
                self.table_grid.push(row);
                proof {
                    assert(grid_view(self.table_grid@) =~= before.push(views(row@)));
                    assert(views(self.table_row@) =~= Seq::<Seq<char>>::empty());
                    assert(self@ =~= md_end_tag(s0, tag));
                }
            },
        }
    }

    fn end_flags(&mut self, tag: MdTagEnd)
        requires
            tag is Emphasis || tag is Strong || tag is Strikethrough || tag is HtmlBlock || tag is MetadataBlock,
        ensures
            final(self)@ == md_end_tag(old(self)@, tag),
    {
        let ghost s0 = self@;
        match tag {
            MdTagEnd::Emphasis => self.italic = false,
            MdTagEnd::Strong => self.bold = false,
            MdTagEnd::Strikethrough => self.strikethrough = false,
            _ => {},
        }
        proof {
            assert(self@ =~= md_end_tag(s0, tag));
        }
    }

    fn end(&mut self, tag: MdTagEnd)
        ensures
            final(self)@ == md_end_tag(old(self)@, tag),
    {
        match tag {
            MdTagEnd::Paragraph | MdTagEnd::Heading | MdTagEnd::FootnoteDefinition => {
                self.flush();
                self.push_blank();
            },
            MdTagEnd::Item | MdTagEnd::DefinitionList | MdTagEnd::DefinitionListTitle
            | MdTagEnd::DefinitionListDefinition => self.flush(),
            MdTagEnd::BlockQuote | MdTagEnd::CodeBlock | MdTagEnd::List | MdTagEnd::TableHead
            | MdTagEnd::TableRow => self.end_block(tag),
            MdTagEnd::Emphasis | MdTagEnd::Strong | MdTagEnd::Strikethrough | MdTagEnd::HtmlBlock
            | MdTagEnd::MetadataBlock => self.end_flags(tag),
            MdTagEnd::Table => self.end_table(),
            MdTagEnd::TableCell => self.end_cell(),
            MdTagEnd::Link => {
                self.in_link = false;
                self.close_link();
            },
            MdTagEnd::Image => self.close_link(),
        }
    }
}


impl MarkdownBuilder {
    fn handle_skipped(&mut self, event: MdEvent)
        requires
            old(self)@.in_skip,
        ensures
            final(self)@ == md_step(old(self)@, event),
    {
        let ghost s0 = self@;
        match event {
            MdEvent::End(MdTagEnd::MetadataBlock) => {
                self.in_skip = false;
                proof {
                    assert(self@ =~= md_step(s0, event));
                }
            },
            _ => {},
        }
    }

    fn handle_html_block(&mut self, event: MdEvent)
        requires
            !old(self)@.in_skip,
            old(self)@.in_html_block,
        ensures
            final(self)@ == md_step(old(self)@, event),
    {
        let ghost s0 = self@;
        match event {
            MdEvent::End(MdTagEnd::HtmlBlock) => {
                self.in_html_block = false;
                let html_input = take_string(&mut self.html_buffer);
                let text = html_to_text(html_input.as_str());
                self.push_text_lines(text.as_str(), plain_style(Tone::Muted));
                self.push_blank();
                proof {
                    assert(self@ =~= md_step(s0, event));
                }
            },
            MdEvent::Text(t) | MdEvent::Html(t) | MdEvent::InlineHtml(t) => {
                self.html_buffer.append(t.as_str());
                proof {
                    assert(self@ =~= md_step(s0, event));
                }
            },
            _ => {},
        }
    }

    fn handle_cell(&mut self, event: MdEvent)
        requires
            !old(self)@.in_skip,
            !old(self)@.in_html_block,
            old(self)@.in_table_cell,
        ensures
            final(self)@ == md_step(old(self)@, event),
    {
        let ghost s0 = self@;
        match event {
            MdEvent::End(MdTagEnd::TableCell) => self.end_cell(),
            MdEvent::Text(t) | MdEvent::Code(t) => {
                self.table_cell_buf.append(t.as_str());
                proof {
                    assert(self@ =~= md_step(s0, event));
                }
            },
            MdEvent::SoftBreak => {
                crate::text::push_char(&mut self.table_cell_buf, ' ');
                proof {
                    assert(self@ =~= md_step(s0, event));
                }
            },
            _ => {},
        }
    }

    fn handle_text(&mut self, event: MdEvent)
        requires
            !old(self)@.in_skip,
            !old(self)@.in_html_block,
            !old(self)@.in_table_cell,
            event is Text || event is Code || event is InlineMath || event is DisplayMath || event is Html
                || event is InlineHtml,
        ensures
            final(self)@ == md_step(old(self)@, event),
    {
        let ghost s0 = self@;
        match event {
            MdEvent::Text(t) => {
                if self.in_code_block {
                    self.code_buffer.append(t.as_str());
                    proof {
                        assert(self@ =~= md_step(s0, event));
                    }
                } else {
                    let style = self.inline_style();
                    self.push_span(latex_to_unicode(t.as_str()), style);
                }
            },
            MdEvent::Code(t) => self.push_span(t, plain_style(Tone::Code)),
            MdEvent::InlineMath(t) => self.push_span(latex_to_unicode(t.as_str()), plain_style(Tone::Code)),
            MdEvent::DisplayMath(t) => {
                self.flush();
                let text = latex_to_unicode(t.as_str());
                self.push_text_lines(text.as_str(), plain_style(Tone::Code));
                self.push_blank();
            },
            MdEvent::Html(t) | MdEvent::InlineHtml(t) => {
                self.begin_line();
                let more = html_to_spans(t.as_str());
                extend_spans(&mut self.current, more);
                proof {
                    assert(self@ =~= md_step(s0, event));
                }
            },
            _ => {},
        }
    }

    fn handle_mark(&mut self, event: MdEvent)
        requires
            !old(self)@.in_skip,
            !old(self)@.in_html_block,
            !old(self)@.in_table_cell,
            event is FootnoteReference || event is SoftBreak || event is HardBreak || event is Rule
                || event is TaskListMarker,
        ensures
            final(self)@ == md_step(old(self)@, event),
    {
        match event {
            MdEvent::FootnoteReference(l) => {
                let m = concat3("[^", l.as_str(), "]");
                self.push_span(m, plain_style(Tone::Muted));
            },
            MdEvent::SoftBreak => {
                let style = self.inline_style();
                self.push_span(String::from_str(" "), style);
            },
            MdEvent::HardBreak => self.flush(),
            MdEvent::Rule => {
                self.flush();
                let mut v: Vec<StyledSpan> = Vec::new();
                let r = repeated_exec('─', 24);
                v.push(StyledSpan { text: r, style: plain_style(Tone::Muted) });
                let line = MdLine::Spans(v);
                proof {
                    assert(line_view(line) =~= LineView::Spans(seq![(rule_text(), tone_style(Tone::Muted))]));
                }
                self.push_line(line);
                self.push_blank();
            },
            MdEvent::TaskListMarker(checked) => {
                let m = if checked { String::from_str("[x] ") } else { String::from_str("[ ] ") };
                self.push_span(m, plain_style(Tone::Muted));
            },
            _ => {},
        }
    }

    /// Whether the next event can be taken in (see `md_step_ok`): an item
    /// of an ordered list numbered up to the largest `u64`, or a block quote
    /// nested as deep as `usize` counts, cannot.
    pub fn step_ok(&self, event: &MdEvent) -> (r: bool)
        ensures
            r == md_step_ok(self@, *event),
    {
        if self.in_skip || self.in_html_block || self.in_table_cell {
            return true;
        }
        match event {
            MdEvent::Start(MdTag::Item) => {
                proof {
                    assert(md_flush(self@).list_stack == self@.list_stack);
                }
                let n = self.list_stack.len();
                !(n > 0 && self.list_stack[n - 1] == Some(u64::MAX))
            },
            MdEvent::Start(MdTag::BlockQuote(_)) => self.quote_depth < usize::MAX,
            _ => true,
        }
    }

    /// Takes in the next event (see `md_step`).
    pub fn handle(&mut self, event: MdEvent)
        requires
            md_step_ok(old(self)@, event),
        ensures
            final(self)@ == md_step(old(self)@, event),
    {
        if self.in_skip {
            self.handle_skipped(event);
        } else if self.in_html_block {
            self.handle_html_block(event);
        } else if self.in_table_cell {
            self.handle_cell(event);
        } else {
            match event {
                MdEvent::Start(tag) => {
                    proof {
                        if tag is Item {
                            assert(md_flush(self@).list_stack == self@.list_stack);
                        }
                    }
                    self.start(tag)
                },
                MdEvent::End(tag) => self.end(tag),
                MdEvent::Text(_) | MdEvent::Code(_) | MdEvent::InlineMath(_) | MdEvent::DisplayMath(_)
                | MdEvent::Html(_) | MdEvent::InlineHtml(_) => self.handle_text(event),
                _ => self.handle_mark(event),
            }
        }
    }

    /// The rendered lines: the current line ended, the empty lines at the
    /// end dropped (see `md_finish`).
    pub fn finish(self) -> (r: Vec<MdLine>)
        ensures
            lines_view(r@) == md_finish(self@),
    {
        let mut b = self;
        b.flush();
        let ghost all = b@.lines;
        let mut lines = b.lines;
        proof {
            assert(lines_view(lines@) == all);
        }
        loop
            invariant
                drop_blank_tail(lines_view(lines@)) == drop_blank_tail(all),
            ensures
                drop_blank_tail(lines_view(lines@)) == drop_blank_tail(all),
                !(lines_view(lines@).len() > 0 && lines_view(lines@).last() == blank()),
            decreases lines.len(),
        {
            let n = lines.len();
            if n == 0 {
                break;
            }
            let empty = match &lines[n - 1] {
                MdLine::Spans(v) => v.len() == 0,
                MdLine::Code { .. } => false,
            };
            proof {
                assert(lines_view(lines@).last() == line_view(lines@[n - 1]));
                if empty {
                    assert(line_view(lines@[n - 1]) =~= blank());
                } else {
                    match lines@[n - 1] {
                        MdLine::Spans(v) => {
                            assert(spans_view(v@).len() > 0);
                            assert(blank()->Spans_0.len() == 0);
                        },
                        MdLine::Code { .. } => {},
                    }
                    assert(line_view(lines@[n - 1]) != blank());
                }
            }
            if !empty {
                break;
            }
            let ghost before = lines_view(lines@);
            lines.pop();
            proof {
                assert(lines_view(lines@) =~= before.drop_last());
            }
        }
        lines
    }
}


/// The builder after a run of events.
pub open spec fn md_run(s: MdState, events: Seq<MdEvent>) -> MdState
    decreases events.len(),
{
    if events.len() == 0 {
        s
    } else {
        md_run(md_step(s, events[0]), events.skip(1))
    }
}

/// Whether a run of events can be handled (see `md_step_ok`).
pub open spec fn md_run_ok(s: MdState, events: Seq<MdEvent>) -> bool
    decreases events.len(),
{
    events.len() == 0 || (md_step_ok(s, events[0]) && md_run_ok(md_step(s, events[0]), events.skip(1)))
}

/// The lines rendered from a document's events, in order.
pub fn render_events(events: Vec<MdEvent>) -> (r: Vec<MdLine>)
    requires
        md_run_ok(md_start(), events@),
    ensures
        lines_view(r@) == md_finish(md_run(md_start(), events@)),
{
    let ghost all = events@;
    let mut events = events;
    let mut rev: Vec<MdEvent> = Vec::new();
    while events.len() > 0
        invariant
            events@ + rev@.reverse() == all,
        decreases events.len(),
    {
        let ghost before = events@;
        let e = events.pop().unwrap();
        rev.push(e);
        proof {
            assert(before =~= events@.push(e));
            assert(rev@.reverse() =~= seq![e] + rev@.drop_last().reverse());
            assert(events@ + rev@.reverse() =~= before + rev@.drop_last().reverse());
        }
    }
    proof {
        assert(events@ =~= Seq::<MdEvent>::empty());
        assert(rev@.reverse() =~= all);
    }
    let mut b = MarkdownBuilder::new();
    while rev.len() > 0
        invariant
            md_run_ok(b@, rev@.reverse()),
            md_finish(md_run(b@, rev@.reverse())) == md_finish(md_run(md_start(), all)),
        decreases rev.len(),
    {
        let ghost before = rev@;
        let e = rev.pop().unwrap();
        proof {
            assert(before =~= rev@.push(e));
            assert(before.reverse()[0] == e);
            assert(before.reverse().skip(1) =~= rev@.reverse());
        }
        b.handle(e);
    }
    proof {
        assert(rev@.reverse() =~= Seq::<MdEvent>::empty());
    }
    b.finish()
}


proof fn lemma_drop_blank_tail(ls: Seq<LineView>)
    ensures
        !(drop_blank_tail(ls).len() > 0 && drop_blank_tail(ls).last() == blank()),
    decreases ls.len(),
{
    if ls.len() > 0 && ls.last() == blank() {
        lemma_drop_blank_tail(ls.drop_last());
    }
}

/// Rendered Markdown never ends with an empty line, whatever the events.
pub proof fn lemma_rendering_ends_with_content(events: Seq<MdEvent>)
    ensures
        ({
            let out = md_finish(md_run(md_start(), events));
            !(out.len() > 0 && out.last() == blank())
        }),
{
    lemma_drop_blank_tail(md_flush(md_run(md_start(), events)).lines);
}

/// A heading of level `n` starts a new line (the line being filled, if
/// any, is finished) and writes its marker: exactly `n` `#` characters and
/// a space, in the heading style, as the last span of the new line.
pub proof fn lemma_heading_marker(s: MdState, level: u8)
    requires
        !s.in_skip,
        !s.in_html_block,
        !s.in_table_cell,
    ensures
        ({
            let t = md_step(s, MdEvent::Start(MdTag::Heading(level)));
            let m = t.current.last().0;
            &&& t.current.len() >= 1
            &&& m.len() == level as int + 1
            &&& forall|i: int| 0 <= i < level ==> m[i] == '#'
            &&& m[level as int] == ' '
            &&& t.current.last().1 == tone_style(Tone::Heading)
            &&& s.current.len() > 0 ==> t.lines == s.lines.push(LineView::Spans(s.current))
            &&& s.current.len() == 0 ==> t.lines == s.lines
        }),
{
    reveal_strlit(" ");
    let t = md_step(s, MdEvent::Start(MdTag::Heading(level)));
    let m = t.current.last().0;
    assert(m =~= repeated('#', level as nat) + " "@);
}

} // verus!
