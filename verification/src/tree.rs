//! What the file-tree sidebar shows: which directories it skips, which
//! entries it keeps, and in what order.

use vstd::prelude::*;
use vstd::relations::{sorted_by, total_ordering};
use crate::read::{code_le, lemma_code_order_total, seq_le, str_le};
use crate::styled::{plain_style, spans_view, tone_style, StyledSpan, Tone};
use crate::text::{split_on, split_str, starts_with, starts_with_str, str_eq, views};

verus! {

/// Deepest level of the tree that is listed.
pub const MAX_DEPTH: usize = 4;

/// Most entries the tree holds.
pub const MAX_ENTRIES: usize = 500;

/// Directories the tree never enters: version control, build output,
/// dependencies and caches.
pub open spec fn is_skip_name(name: Seq<char>) -> bool {
    ||| name == ".git"@
    ||| name == "target"@
    ||| name == "node_modules"@
    ||| name == ".openrust"@
    ||| name == "dist"@
    ||| name == ".cache"@
}

pub fn is_skip_name_exec(name: &str) -> (r: bool)
    ensures
        r == is_skip_name(name@),
{
    str_eq(name, ".git") || str_eq(name, "target") || str_eq(name, "node_modules") || str_eq(
        name,
        ".openrust",
    ) || str_eq(name, "dist") || str_eq(name, ".cache")
}

/// Whether some component of a `/`-separated path is a skipped directory.
pub open spec fn spec_in_skip_dir(path: Seq<char>) -> bool {
    let parts = split_on(path, '/');
    exists|i: int| 0 <= i < parts.len() && #[trigger] is_skip_name(parts[i])
}

pub fn is_in_skip_dir(path: &str) -> (r: bool)
    ensures
        r == spec_in_skip_dir(path@),
{
    let parts = split_str(path, '/');
    let ghost ps = views(parts@);
    let mut i: usize = 0;
    while i < parts.len()
        invariant
            ps == views(parts@),
            ps == split_on(path@, '/'),
            i <= parts.len(),
            forall|k: int| 0 <= k < i ==> !is_skip_name(#[trigger] ps[k]),
        decreases parts.len() - i,
    {
        if is_skip_name_exec(parts[i].as_str()) {
            proof {
                assert(is_skip_name(ps[i as int]));
            }
            return true;
        }
        i += 1;
    }
    false
}

/// Whether a directory entry is listed: hidden names only at the top
/// level, and no skipped directory.
pub open spec fn spec_keep_child(name: Seq<char>, is_dir: bool, depth: nat) -> bool {
    !(starts_with(name, "."@) && depth > 0) && !(is_dir && is_skip_name(name))
}

pub fn keep_child(name: &str, is_dir: bool, depth: usize) -> (r: bool)
    ensures
        r == spec_keep_child(name@, is_dir, depth as nat),
{
    !(starts_with_str(name, ".") && depth > 0) && !(is_dir && is_skip_name_exec(name))
}

/// Directories before files, each group in code point order.
pub open spec fn child_le(a: (Seq<char>, bool), b: (Seq<char>, bool)) -> bool {
    if a.1 != b.1 {
        a.1
    } else {
        seq_le(a.0, b.0)
    }
}

pub open spec fn child_order() -> spec_fn((Seq<char>, bool), (Seq<char>, bool)) -> bool {
    |a: (Seq<char>, bool), b: (Seq<char>, bool)| child_le(a, b)
}

/// The sidebar's order is a total order.
pub proof fn lemma_child_order_total()
    ensures
        total_ordering(child_order()),
{
    lemma_code_order_total();
    assert(total_ordering(code_le()));
    assert forall|x: (Seq<char>, bool)| #[trigger] child_order()(x, x) by {
        assert(code_le()(x.0, x.0));
    }
    assert forall|x: (Seq<char>, bool), y: (Seq<char>, bool)| #[trigger] child_order()(x, y)
        && #[trigger] child_order()(y, x) implies x == y by {
        assert(code_le()(x.0, y.0) && code_le()(y.0, x.0));
    }
    assert forall|x: (Seq<char>, bool), y: (Seq<char>, bool), z: (Seq<char>, bool)| #[trigger] child_order()(x, y)
        && #[trigger] child_order()(y, z) implies child_order()(x, z) by {
        if x.1 == y.1 && y.1 == z.1 {
            assert(code_le()(x.0, y.0) && code_le()(y.0, z.0));
        }
    }
    assert forall|x: (Seq<char>, bool), y: (Seq<char>, bool)| #[trigger] child_order()(x, y)
        || #[trigger] child_order()(y, x) by {
        if x.1 == y.1 {
            assert(code_le()(x.0, y.0) || code_le()(y.0, x.0));
        }
    }
}

/// Children by their views.
pub open spec fn children_view(v: Seq<(String, bool)>) -> Seq<(Seq<char>, bool)> {
    v.map_values(|c: (String, bool)| (c.0@, c.1))
}

fn child_le_exec(a: &(String, bool), b: &(String, bool)) -> (r: bool)
    ensures
        r == child_le((a.0@, a.1), (b.0@, b.1)),
{
    if a.1 != b.1 {
        a.1
    } else {
        str_le(a.0.as_str(), b.0.as_str())
    }
}

/// A directory's children in the sidebar's order: directories first, then
/// files, each group in code point order.
pub fn sort_children(children: Vec<(String, bool)>) -> (r: Vec<(String, bool)>)
    ensures
        children_view(r@) == children_view(children@).sort_by(child_order()),
        r.len() == children.len(),
{
    broadcast use vstd::seq_lib::group_to_multiset_ensures;
    broadcast use vstd::multiset::group_multiset_axioms;

    let ghost all = children_view(children@);
    let mut out: Vec<(String, bool)> = Vec::new();
    let mut i: usize = 0;
    proof {
        lemma_child_order_total();
        assert(children_view(out@) =~= Seq::<(Seq<char>, bool)>::empty());
        assert(all.take(0) =~= Seq::<(Seq<char>, bool)>::empty());
    }
    while i < children.len()
        invariant
            all == children_view(children@),
            i <= children.len(),
            total_ordering(child_order()),
            sorted_by(children_view(out@), child_order()),
            children_view(out@).to_multiset() == all.take(i as int).to_multiset(),
        decreases children.len() - i,
    {
        let x = (children[i].0.clone(), children[i].1);
        let ghost xv = (x.0@, x.1);
        let ghost old_out = children_view(out@);
        let mut j = out.len();
        while j > 0 && !child_le_exec(&out[j - 1], &x)
            invariant
                old_out == children_view(out@),
                j <= out.len(),
                xv == (x.0@, x.1),
                forall|k: int| j <= k < out.len() ==> !child_le(old_out[k], xv),
            decreases j,
        {
            j -= 1;
        }
        out.insert(j, x);
        let ghost new_out = children_view(out@);
        proof {
            assert(new_out =~= old_out.insert(j as int, xv));
            assert forall|a: int, b: int| 0 <= a < b < new_out.len() implies #[trigger] child_order()(
                new_out[a],
                new_out[b],
            ) by {
                if b < j {
                } else if a < j && b == j {
                    assert(child_le(old_out[j - 1], xv));
                    if a != j - 1 {
                        assert(child_order()(old_out[a], old_out[j - 1]));
                        assert(child_order()(old_out[j - 1], xv));
                    }
                } else if a < j {
                    assert(new_out[b] == old_out[b - 1]);
                } else if a == j {
                    assert(!child_order()(old_out[b - 1], xv));
                } else {
                    assert(new_out[a] == old_out[a - 1]);
                    assert(new_out[b] == old_out[b - 1]);
                }
            }
            let t = old_out.take(j as int);
            let d = old_out.skip(j as int);
            assert(old_out =~= t + d);
            assert(new_out =~= t.push(xv) + d);
            vstd::seq_lib::lemma_multiset_commutative(t, d);
            vstd::seq_lib::lemma_multiset_commutative(t.push(xv), d);
            vstd::seq_lib::to_multiset_build(t, xv);
            vstd::seq_lib::to_multiset_build(all.take(i as int), all[i as int]);
            assert(old_out.to_multiset() =~= t.to_multiset().add(d.to_multiset()));
            assert(new_out.to_multiset() =~= t.to_multiset().insert(xv).add(d.to_multiset()));
            assert(new_out.to_multiset() =~= old_out.to_multiset().insert(xv));
            assert(xv == all[i as int]);
            assert(all.take(i + 1) =~= all.take(i as int).push(all[i as int]));
        }
        i += 1;
    }
    proof {
        assert(all.take(children.len() as int) =~= all);
        assert(children_view(out@).len() == children_view(out@).to_multiset().len());
        all.lemma_sort_by_ensures(child_order());
        vstd::seq_lib::lemma_sorted_unique(children_view(out@), all.sort_by(child_order()), child_order());
    }
    out
}


/// An entry of the tree: its depth below the root, its name, and whether
/// it is a directory.
pub struct TreeEntry {
    pub depth: usize,
    pub name: String,
    pub is_dir: bool,
}

/// `n` copies of two spaces.
pub open spec fn tree_indent(n: nat) -> Seq<char>
    decreases n,
{
    if n == 0 {
        seq![]
    } else {
        tree_indent((n - 1) as nat) + "  "@
    }
}

/// The line of an entry: indented two spaces per level, a directory's
/// name followed by `/`, each in its own style.
pub open spec fn entry_line(e: TreeEntry) -> (Seq<char>, crate::styled::TextStyle) {
    if e.is_dir {
        (tree_indent(e.depth as nat) + e.name@ + "/"@, tone_style(Tone::SidebarDir))
    } else {
        (tree_indent(e.depth as nat) + e.name@, tone_style(Tone::SidebarFile))
    }
}

/// The sidebar's lines, one span each: a muted `(empty)` for an empty
/// tree, else one line per entry (see `entry_line`).
pub open spec fn spec_tree_lines(entries: Seq<TreeEntry>) -> Seq<(Seq<char>, crate::styled::TextStyle)> {
    if entries.len() == 0 {
        seq![("(empty)"@, tone_style(Tone::Muted))]
    } else {
        entries.map_values(|e: TreeEntry| entry_line(e))
    }
}

/// The sidebar's lines (see `spec_tree_lines`).
pub fn tree_lines(entries: &Vec<TreeEntry>) -> (r: Vec<StyledSpan>)
    ensures
        spans_view(r@) == spec_tree_lines(entries@),
{
    let mut out: Vec<StyledSpan> = Vec::new();
    if entries.len() == 0 {
        out.push(StyledSpan { text: String::from_str("(empty)"), style: plain_style(Tone::Muted) });
        proof {
            assert(spans_view(out@) =~= spec_tree_lines(entries@));
        }
        return out;
    }
    let mut i: usize = 0;
    while i < entries.len()
        invariant
            i <= entries.len(),
            spans_view(out@) =~= entries@.map_values(|e: TreeEntry| entry_line(e)).take(i as int),
        decreases entries.len() - i,
    {
        let e = &entries[i];
        let mut t = String::new();
        let mut k: usize = 0;
        while k < e.depth
            invariant
                k <= e.depth,
                t@ == tree_indent(k as nat),
            decreases e.depth - k,
        {
            t.append("  ");
            k += 1;
        }
        t.append(e.name.as_str());
        let style = if e.is_dir {
            t.append("/");
            plain_style(Tone::SidebarDir)
        } else {
            plain_style(Tone::SidebarFile)
        };
        let ghost before = spans_view(out@);
        out.push(StyledSpan { text: t, style: style });
        proof {
            assert(spans_view(out@) =~= before.push((t@, style)));
            assert(entry_line(entries@[i as int]) == (t@, style));
            assert(entries@.map_values(|e: TreeEntry| entry_line(e)).take(i + 1)
                =~= entries@.map_values(|e: TreeEntry| entry_line(e)).take(i as int).push(entry_line(entries@[i as int])));
        }
        i += 1;
    }
    proof {
        assert(entries@.map_values(|e: TreeEntry| entry_line(e)).take(entries.len() as int)
            =~= entries@.map_values(|e: TreeEntry| entry_line(e)));
    }
    out
}

} // verus!
