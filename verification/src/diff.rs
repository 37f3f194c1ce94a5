//! Line diffs of a file before and after an edit, as shown to the user.

use vstd::prelude::*;
use crate::text::{chars_of, join, join_str, string_of_range, views};

verus! {

/// The kind of a line in a diff.
#[derive(Clone, Copy, Debug, PartialEq, Eq, Structural)]
pub enum DiffTag {
    Equal,
    Delete,
    Insert,
}

/// The line changes `similar::TextDiff::from_lines` finds between two
/// texts, in order: each line's kind and its text with its line ending.
pub uninterp spec fn line_diff(before: Seq<char>, after: Seq<char>) -> Seq<(DiffTag, Seq<char>)>;

pub open spec fn changes_view(v: Seq<(DiffTag, String)>) -> Seq<(DiffTag, Seq<char>)> {
    v.map_values(|c: (DiffTag, String)| (c.0, c.1@))
}

/// Diffs two texts line by line with `similar::TextDiff::from_lines` (the
/// default Myers algorithm, no deadline) and reads out every change with
/// its tag and text. The changes are named by `line_diff`.
#[verifier::external_body]
fn line_changes(before: &str, after: &str) -> (r: Vec<(DiffTag, String)>)
    ensures
        changes_view(r@) == line_diff(before@, after@),
{
    similar::TextDiff::from_lines(before, after)
        .iter_all_changes()
        .map(|c| {
            let tag = match c.tag() {
                similar::ChangeTag::Equal => DiffTag::Equal,
                similar::ChangeTag::Delete => DiffTag::Delete,
                similar::ChangeTag::Insert => DiffTag::Insert,
            };
            (tag, c.value().to_string())
        })
        .collect()
}

/// The sign shown before a line of each kind.
pub open spec fn sign(t: DiffTag) -> Seq<char> {
    match t {
        DiffTag::Delete => "-"@,
        DiffTag::Insert => "+"@,
        DiffTag::Equal => " "@,
    }
}

/// `s` without its trailing newlines.
pub open spec fn strip_newlines(s: Seq<char>) -> Seq<char>
    decreases s.len(),
{
    if s.len() > 0 && s.last() == '\n' {
        strip_newlines(s.drop_last())
    } else {
        s
    }
}

/// A change as shown: its sign, a space, and its text without line ending.
pub open spec fn change_line(c: (DiffTag, Seq<char>)) -> Seq<char> {
    sign(c.0) + " "@ + strip_newlines(c.1)
}

fn strip_newlines_exec(s: &str) -> (r: String)
    ensures
        r@ == strip_newlines(s@),
{
    let v = chars_of(s);
    let mut j = v.len();
    proof {
        assert(v@.subrange(0, j as int) =~= v@);
    }
    while j > 0 && v[j - 1] == '\n'
        invariant
            v@ == s@,
            j <= v.len(),
            strip_newlines(s@) == strip_newlines(v@.subrange(0, j as int)),
        decreases j,
    {
        proof {
            assert(v@.subrange(0, j as int).drop_last() =~= v@.subrange(0, j - 1));
        }
        j -= 1;
    }
    string_of_range(&v, 0, j)
}

/// The lines of the diff between two texts, each with its kind (see
/// `change_line`).
pub fn diff_lines(before: &str, after: &str) -> (r: Vec<(DiffTag, String)>)
    ensures
        changes_view(r@) == line_diff(before@, after@).map_values(
            |c: (DiffTag, Seq<char>)| (c.0, change_line(c)),
        ),
{
    let changes = line_changes(before, after);
    let ghost cv = changes_view(changes@);
    let mut out: Vec<(DiffTag, String)> = Vec::new();
    let mut i: usize = 0;
    while i < changes.len()
        invariant
            cv == changes_view(changes@),
            i <= changes.len(),
            changes_view(out@) =~= cv.map_values(|c: (DiffTag, Seq<char>)| (c.0, change_line(c))).take(
                i as int,
            ),
        decreases changes.len() - i,
    {
        let tag = changes[i].0;
        let mut line = String::from_str(
            match tag {
                DiffTag::Delete => "-",
                DiffTag::Insert => "+",
                DiffTag::Equal => " ",
            },
        );
        line.append(" ");
        line.append(strip_newlines_exec(changes[i].1.as_str()).as_str());
        proof {
            assert(cv[i as int] == (tag, changes@[i as int].1@));
            assert(line@ =~= change_line(cv[i as int]));
        }
        let ghost before_out = changes_view(out@);
        out.push((tag, line));
        proof {
            assert(changes_view(out@) =~= before_out.push((tag, line@)));
        }
        i += 1;
    }
    out
}

/// The diff between two texts as text: one signed line per change.
pub fn unified_diff(before: &str, after: &str) -> (r: String)
    ensures
        r@ == join(
            line_diff(before@, after@).map_values(|c: (DiffTag, Seq<char>)| change_line(c)),
            "\n"@,
        ),
{
    let lines = diff_lines(before, after);
    let ghost lv = changes_view(lines@);
    let mut texts: Vec<String> = Vec::new();
    let mut i: usize = 0;
    while i < lines.len()
        invariant
            lv == changes_view(lines@),
            i <= lines.len(),
            views(texts@) =~= lv.map_values(|c: (DiffTag, Seq<char>)| c.1).take(i as int),
        decreases lines.len() - i,
    {
        let ghost before_t = views(texts@);
        let t = lines[i].1.clone();
        texts.push(t);
        proof {
            assert(views(texts@) =~= before_t.push(t@));
        }
        i += 1;
    }
    proof {
        assert(lv.map_values(|c: (DiffTag, Seq<char>)| c.1).take(lines.len() as int) =~= line_diff(
            before@,
            after@,
        ).map_values(|c: (DiffTag, Seq<char>)| change_line(c)));
    }
    join_str(&texts, "\n")
}

} // verus!
