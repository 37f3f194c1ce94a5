//! Display widths in terminal columns: the cursor column of a text area and
//! the layout of a rendered table.

use unicode_width::{UnicodeWidthChar, UnicodeWidthStr};
use vstd::prelude::*;
use crate::text::{chars_of, push_char, views};

verus! {

/// The displayed width of a character in columns, `None` for a control
/// character (Unicode Standard Annex #11, ambiguous characters narrow).
pub uninterp spec fn char_columns(c: char) -> Option<nat>;

/// The displayed width of a string in columns (Unicode Standard Annex #11,
/// with the ligature rules of `unicode-width`).
pub uninterp spec fn str_columns(s: Seq<char>) -> nat;

/// `UnicodeWidthChar::width`. As its source shows: the C0 controls
/// (below U+0020) and U+007F up to U+00A0 give `None`, printable ASCII
/// gives one column, and no character is wider than three columns (U+17D8
/// is the one character of width three). Which width any other character
/// has is left to the name `char_columns`.
#[verifier::external_body]
pub(crate) fn char_width(c: char) -> (r: Option<usize>)
    ensures
        match r {
            Some(w) => char_columns(c) == Some(w as nat) && w <= 3,
            None => char_columns(c) is None,
        },
        r is None <==> ((c as u32) < 0x20 || (0x7F <= (c as u32) && (c as u32) < 0xA0)),
        (0x20 <= (c as u32) && (c as u32) < 0x7F) ==> r == Some(1usize),
{
    UnicodeWidthChar::width(c)
}

/// `UnicodeWidthStr::width`: the columns a string takes; the empty string
/// takes none. Which width any other string has is left to the name
/// `str_columns`.
#[verifier::external_body]
pub(crate) fn display_width(s: &str) -> (r: usize)
    ensures
        r == str_columns(s@),
        s@.len() == 0 ==> r == 0,
{
    UnicodeWidthStr::width(s)
}

/// The columns a character takes in a text area: its width, or one for a
/// control character.
pub open spec fn cell_columns(c: char) -> nat {
    match char_columns(c) {
        Some(w) => w,
        None => 1,
    }
}

/// The columns the characters of `s` take, one after the other.
pub open spec fn columns_of(s: Seq<char>) -> nat
    decreases s.len(),
{
    if s.len() == 0 {
        0
    } else {
        columns_of(s.drop_last()) + cell_columns(s.last())
    }
}

/// The display column of the cursor at character `col` of line `row`: the
/// columns taken by the characters before it, or `col` itself where there
/// is no such line.
pub open spec fn spec_display_col(lines: Seq<Seq<char>>, row: int, col: nat) -> nat {
    if 0 <= row < lines.len() {
        let line = lines[row];
        if col <= line.len() {
            columns_of(line.take(col as int))
        } else {
            columns_of(line)
        }
    } else {
        col
    }
}

/// The display column of the cursor in a text area whose lines are
/// `lines`, at row `row` and character column `col`. Each character is
/// at most three columns wide, so the result fits where `3 * col` does.
pub fn textarea_display_col(lines: &Vec<String>, row: usize, col: usize) -> (r: usize)
    requires
        3 * col <= usize::MAX,
    ensures
        r == spec_display_col(views(lines@), row as int, col as nat),
{
    if row >= lines.len() {
        return col;
    }
    let chars = chars_of(lines[row].as_str());
    let ghost line = chars@;
    proof {
        assert(views(lines@)[row as int] == lines@[row as int]@);
    }
    let n = if col <= chars.len() { col } else { chars.len() };
    let mut total: usize = 0;
    let mut i: usize = 0;
    while i < n
        invariant
            line == chars@,
            n <= chars.len(),
            n <= col,
            3 * col <= usize::MAX,
            i <= n,
            total == columns_of(line.take(i as int)),
            total <= 3 * i,
        decreases n - i,
    {
        let w: usize = match char_width(chars[i]) {
            Some(w) => w,
            None => 1,
        };
        proof {
            assert(line.take(i + 1).drop_last() =~= line.take(i as int));
            assert(line.take(i + 1).last() == line[i as int]);
        }
        total = total + w;
        i += 1;
    }
    proof {
        if col > chars.len() {
            assert(line.take(n as int) =~= line);
        }
    }
    total
}

/// How a table column is aligned, as a Markdown table's delimiter row says.
#[derive(Clone, Copy, Debug, PartialEq, Eq, Structural)]
pub enum ColumnAlign {
    Unset,
    Left,
    Center,
    Right,
}

/// What a piece of a rendered table is, which says how it is styled: the
/// rules between columns and under the header, a header cell, a body cell.
#[derive(Clone, Copy, Debug, PartialEq, Eq, Structural)]
pub enum TablePart {
    Rule,
    Header,
    Body,
}

/// A piece of text in a rendered table line.
pub struct TableSpan {
    pub text: String,
    pub part: TablePart,
}

/// A span as its text and part.
pub open spec fn span_view(s: TableSpan) -> (Seq<char>, TablePart) {
    (s.text@, s.part)
}

/// The spans of a line as texts and parts.
pub open spec fn spans_view(v: Seq<TableSpan>) -> Seq<(Seq<char>, TablePart)> {
    v.map_values(|s: TableSpan| span_view(s))
}

/// The lines of a table as spans.
pub open spec fn table_view(v: Seq<Vec<TableSpan>>) -> Seq<Seq<(Seq<char>, TablePart)>> {
    v.map_values(|l: Vec<TableSpan>| spans_view(l@))
}

/// A grid of cells as text.
pub open spec fn grid_view(g: Seq<Vec<String>>) -> Seq<Seq<Seq<char>>> {
    g.map_values(|r: Vec<String>| views(r@))
}

/// The length of the longest row.
pub open spec fn max_row_len(grid: Seq<Seq<Seq<char>>>) -> nat
    decreases grid.len(),
{
    if grid.len() == 0 {
        0
    } else {
        let m = max_row_len(grid.drop_last());
        if grid.last().len() > m {
            grid.last().len()
        } else {
            m
        }
    }
}

/// The number of columns: the longest row, or the number of alignments if
/// that is more.
pub open spec fn table_cols(grid: Seq<Seq<Seq<char>>>, aligns: Seq<ColumnAlign>) -> nat {
    if aligns.len() >= max_row_len(grid) {
        aligns.len()
    } else {
        max_row_len(grid)
    }
}

/// The width of column `i`: the widest of its cells, zero where no row
/// reaches it.
pub open spec fn column_width(grid: Seq<Seq<Seq<char>>>, i: int) -> nat
    decreases grid.len(),
{
    if grid.len() == 0 {
        0
    } else {
        let m = column_width(grid.drop_last(), i);
        let row = grid.last();
        let w = if 0 <= i < row.len() {
            str_columns(row[i])
        } else {
            0
        };
        if w > m {
            w
        } else {
            m
        }
    }
}

/// The text of cell `i` of a row, empty where the row is shorter.
pub open spec fn cell_text(row: Seq<Seq<char>>, i: int) -> Seq<char> {
    if 0 <= i < row.len() {
        row[i]
    } else {
        seq![]
    }
}

/// `n` copies of `c`.
pub open spec fn repeated(c: char, n: nat) -> Seq<char> {
    Seq::new(n, |k: int| c)
}

/// The alignment of column `i`, where one is given.
pub open spec fn align_at(aligns: Seq<ColumnAlign>, i: int) -> Option<ColumnAlign> {
    if 0 <= i < aligns.len() {
        Some(aligns[i])
    } else {
        None
    }
}

/// The spaces before and after a cell whose column has `gap` columns to
/// spare: split in two (the larger half after) when centred, all before
/// when right-aligned, all after otherwise.
pub open spec fn padding(align: Option<ColumnAlign>, gap: nat) -> (nat, nat) {
    match align {
        Some(ColumnAlign::Center) => (gap / 2, (gap - gap / 2) as nat),
        Some(ColumnAlign::Right) => (gap, 0),
        _ => (0, gap),
    }
}

/// The columns to spare beside a cell in a column `width` wide.
pub open spec fn spare(width: nat, cell: Seq<char>) -> nat {
    if str_columns(cell) <= width {
        (width - str_columns(cell)) as nat
    } else {
        0
    }
}

/// Cell `i` of row `r`, padded to its column's width.
pub open spec fn padded_cell(grid: Seq<Seq<Seq<char>>>, aligns: Seq<ColumnAlign>, r: int, i: int) -> Seq<char> {
    let cell = cell_text(grid[r], i);
    let pad = padding(align_at(aligns, i), spare(column_width(grid, i), cell));
    repeated(' ', pad.0) + cell + repeated(' ', pad.1)
}

/// The part of the cells of row `r`: the first row is the header.
pub open spec fn row_part(r: int) -> TablePart {
    if r == 0 {
        TablePart::Header
    } else {
        TablePart::Body
    }
}

/// The spans of the first `k` columns of row `r`: each padded cell, with a
/// rule `" │ "` before every cell but the first.
pub open spec fn row_spans(grid: Seq<Seq<Seq<char>>>, aligns: Seq<ColumnAlign>, r: int, k: nat) -> Seq<(Seq<char>, TablePart)>
    decreases k,
{
    if k == 0 {
        seq![]
    } else {
        let before = row_spans(grid, aligns, r, (k - 1) as nat);
        let with_rule = if k - 1 > 0 {
            before.push((" │ "@, TablePart::Rule))
        } else {
            before
        };
        with_rule.push((padded_cell(grid, aligns, r, k - 1), row_part(r)))
    }
}

/// The rule under the header for the first `k` columns: each column's
/// width in `─`, joined by `─┼─`.
pub open spec fn rule_text(grid: Seq<Seq<Seq<char>>>, k: nat) -> Seq<char>
    decreases k,
{
    if k == 0 {
        seq![]
    } else {
        let before = rule_text(grid, (k - 1) as nat);
        let joined = if k - 1 > 0 {
            before + "─┼─"@
        } else {
            before
        };
        joined + repeated('─', column_width(grid, k - 1))
    }
}

/// The lines for the first `m` rows: one line per row, and after the
/// first row the rule line.
pub open spec fn table_lines(grid: Seq<Seq<Seq<char>>>, aligns: Seq<ColumnAlign>, m: nat) -> Seq<Seq<(Seq<char>, TablePart)>>
    decreases m,
{
    if m == 0 {
        seq![]
    } else {
        let n = table_cols(grid, aligns);
        let lines = table_lines(grid, aligns, (m - 1) as nat).push(row_spans(grid, aligns, m - 1, n));
        if m - 1 == 0 {
            lines.push(seq![(rule_text(grid, n), TablePart::Rule)])
        } else {
            lines
        }
    }
}

/// A table laid out in lines: none for an empty grid or one without
/// columns.
pub open spec fn spec_build_table(grid: Seq<Seq<Seq<char>>>, aligns: Seq<ColumnAlign>) -> Seq<Seq<(Seq<char>, TablePart)>> {
    if grid.len() == 0 || table_cols(grid, aligns) == 0 {
        seq![]
    } else {
        table_lines(grid, aligns, grid.len())
    }
}

/// Appends `n` copies of `c`.
fn push_repeated(s: &mut String, c: char, n: usize)
    ensures
        final(s)@ == old(s)@ + repeated(c, n as nat),
{
    let ghost start = s@;
    let mut k: usize = 0;
    while k < n
        invariant
            k <= n,
            s@ == start + repeated(c, k as nat),
        decreases n - k,
    {
        push_char(s, c);
        k += 1;
        proof {
            assert(s@ =~= start + repeated(c, k as nat));
        }
    }
}

proof fn lemma_column_width_step(grid: Seq<Seq<Seq<char>>>, k: int, i: int)
    requires
        0 <= k < grid.len(),
    ensures
        column_width(grid.take(k + 1), i) == ({
            let m = column_width(grid.take(k), i);
            let w = if 0 <= i < grid[k].len() { str_columns(grid[k][i]) } else { 0 };
            if w > m { w } else { m }
        }),
{
    assert(grid.take(k + 1).drop_last() =~= grid.take(k));
}

proof fn lemma_max_row_len_step(grid: Seq<Seq<Seq<char>>>, k: int)
    requires
        0 <= k < grid.len(),
    ensures
        max_row_len(grid.take(k + 1)) == (if grid[k].len() > max_row_len(grid.take(k)) {
            grid[k].len()
        } else {
            max_row_len(grid.take(k))
        }),
{
    assert(grid.take(k + 1).drop_last() =~= grid.take(k));
}

/// The widths of the first `n` columns of a grid.
fn column_widths(grid: &Vec<Vec<String>>, n: usize) -> (r: Vec<usize>)
    ensures
        r.len() == n,
        forall|i: int| 0 <= i < n ==> r@[i] == column_width(grid_view(grid@), i),
{
    let ghost g = grid_view(grid@);
    let mut widths: Vec<usize> = Vec::new();
    let mut i: usize = 0;
    while i < n
        invariant
            g == grid_view(grid@),
            i <= n,
            widths.len() == i,
            forall|j: int| 0 <= j < i ==> widths@[j] == column_width(g, j),
        decreases n - i,
    {
        let mut m: usize = 0;
        let mut k: usize = 0;
        while k < grid.len()
            invariant
                g == grid_view(grid@),
                k <= grid.len(),
                m == column_width(g.take(k as int), i as int),
            decreases grid.len() - k,
        {
            proof {
                lemma_column_width_step(g, k as int, i as int);
                assert(g[k as int] == views(grid@[k as int]@));
            }
            if i < grid[k].len() {
                let w = display_width(grid[k][i].as_str());
                if w > m {
                    m = w;
                }
            }
            k += 1;
        }
        proof {
            assert(g.take(grid.len() as int) =~= g);
        }
        widths.push(m);
        i += 1;
    }
    widths
}

/// Lays out a table of text cells in lines of spans, as a Markdown table
/// is rendered: every column padded to its widest cell and aligned as
/// `alignments` says, columns parted by `" │ "`, the header row followed
/// by a rule of `─` joined by `─┼─`. An empty grid, or one without
/// columns, gives no lines.
pub fn build_table(grid: &Vec<Vec<String>>, alignments: &Vec<ColumnAlign>) -> (r: Vec<Vec<TableSpan>>)
    ensures
        table_view(r@) == spec_build_table(grid_view(grid@), alignments@),
{
    let ghost g = grid_view(grid@);
    let ghost al = alignments@;
    if grid.len() == 0 {
        let r: Vec<Vec<TableSpan>> = Vec::new();
        proof {
            assert(table_view(r@) =~= seq![]);
        }
        return r;
    }
    let mut longest: usize = 0;
    let mut k: usize = 0;
    while k < grid.len()
        invariant
            g == grid_view(grid@),
            k <= grid.len(),
            longest == max_row_len(g.take(k as int)),
        decreases grid.len() - k,
    {
        proof {
            lemma_max_row_len_step(g, k as int);
            assert(g[k as int] == views(grid@[k as int]@));
        }
        if grid[k].len() > longest {
            longest = grid[k].len();
        }
        k += 1;
    }
    proof {
        assert(g.take(grid.len() as int) =~= g);
    }
    let n_cols = if alignments.len() >= longest { alignments.len() } else { longest };
    if n_cols == 0 {
        let r: Vec<Vec<TableSpan>> = Vec::new();
        proof {
            assert(table_view(r@) =~= seq![]);
        }
        return r;
    }
    let widths = column_widths(grid, n_cols);
    let empty = String::new();
    let mut result: Vec<Vec<TableSpan>> = Vec::new();
    let mut row: usize = 0;
    while row < grid.len()
        invariant
            g == grid_view(grid@),
            al == alignments@,
            n_cols == table_cols(g, al),
            n_cols > 0,
            widths.len() == n_cols,
            forall|i: int| 0 <= i < n_cols ==> widths@[i] == column_width(g, i),
            empty@ == Seq::<char>::empty(),
            row <= grid.len(),
            table_view(result@) == table_lines(g, al, row as nat),
        decreases grid.len() - row,
    {
        let mut spans: Vec<TableSpan> = Vec::new();
        let mut i: usize = 0;
        while i < n_cols
            invariant
                g == grid_view(grid@),
                al == alignments@,
                widths.len() == n_cols,
                forall|j: int| 0 <= j < n_cols ==> widths@[j] == column_width(g, j),
                empty@ == Seq::<char>::empty(),
                row < grid.len(),
                i <= n_cols,
                spans_view(spans@) == row_spans(g, al, row as int, i as nat),
            decreases n_cols - i,
        {
            proof {
                assert(g[row as int] == views(grid@[row as int]@));
            }
            let cell: &str = if i < grid[row].len() { grid[row][i].as_str() } else { empty.as_str() };
            proof {
                assert(cell@ == cell_text(g[row as int], i as int));
            }
            let cw = display_width(cell);
            let max_w = widths[i];
            let gap: usize = if cw <= max_w { max_w - cw } else { 0 };
            let (lp, rp): (usize, usize) = if i < alignments.len() {
                match alignments[i] {
                    ColumnAlign::Center => (gap / 2, gap - gap / 2),
                    ColumnAlign::Right => (gap, 0),
                    _ => (0, gap),
                }
            } else {
                (0, gap)
            };
            let ghost before = spans_view(spans@);
            if i > 0 {
                spans.push(TableSpan { text: String::from_str(" │ "), part: TablePart::Rule });
            }
            let mut content = String::new();
            push_repeated(&mut content, ' ', lp);
            content.append(cell);
            push_repeated(&mut content, ' ', rp);
            let part = if row == 0 { TablePart::Header } else { TablePart::Body };
            spans.push(TableSpan { text: content, part: part });
            proof {
                assert(content@ =~= padded_cell(g, al, row as int, i as int));
                if i > 0 {
                    assert(spans_view(spans@) =~= before.push((" │ "@, TablePart::Rule)).push((padded_cell(g, al, row as int, i as int), row_part(row as int))));
                } else {
                    assert(spans_view(spans@) =~= before.push((padded_cell(g, al, row as int, i as int), row_part(row as int))));
                }
            }
            i += 1;
        }
        let ghost prev = table_view(result@);
        result.push(spans);
        proof {
            assert(table_view(result@) =~= prev.push(row_spans(g, al, row as int, n_cols as nat)));
        }
        if row == 0 {
            let mut sep = String::new();
            let mut j: usize = 0;
            while j < n_cols
                invariant
                    g == grid_view(grid@),
                    widths.len() == n_cols,
                    forall|x: int| 0 <= x < n_cols ==> widths@[x] == column_width(g, x),
                    j <= n_cols,
                    sep@ == rule_text(g, j as nat),
                decreases n_cols - j,
            {
                if j > 0 {
                    sep.append("─┼─");
                }
                push_repeated(&mut sep, '─', widths[j]);
                proof {
                    assert(sep@ =~= rule_text(g, (j + 1) as nat));
                }
                j += 1;
            }
            let ghost prev2 = table_view(result@);
            let mut line: Vec<TableSpan> = Vec::new();
            line.push(TableSpan { text: sep, part: TablePart::Rule });
            result.push(line);
            proof {
                assert(spans_view(line@) =~= seq![(rule_text(g, n_cols as nat), TablePart::Rule)]);
                assert(table_view(result@) =~= prev2.push(seq![(rule_text(g, n_cols as nat), TablePart::Rule)]));
            }
        }
        row += 1;
    }
    result
}

} // verus!
