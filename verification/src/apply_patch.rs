//! Patch format of the apply_patch tool, and how an update is applied to a
//! file's text.
//!
//! Patch format:
//! ```text
//! *** Begin Patch
//! *** Add File: path
//! +new content line
//! *** Update File: path
//! @@ optional context
//!  unchanged line
//! -removed line
//! +added line
//! *** Delete File: path
//! *** End Patch
//! ```

use vstd::prelude::*;
use crate::text::{
    join, join_str, split_on, split_str, starts_with, starts_with_str, str_eq, strip_prefix,
    strip_prefix_str, trim, trim_end, trim_end_str, trim_str, views,
};

verus! {

/// Apply one patch containing add, update, and delete file operations.
pub struct ApplyPatchTool;

impl ApplyPatchTool {
    pub fn name(&self) -> (r: &'static str)
        ensures
            r@ == "apply_patch"@,
    {
        "apply_patch"
    }

    pub fn description(&self) -> (r: &'static str)
        ensures
            r@ == "Apply one patch containing add, update, and delete file operations. Operations apply sequentially; if a later operation fails, earlier operations remain applied and the failure reports them. Relative paths resolve from cwd."@,
    {
        "Apply one patch containing add, update, and delete file operations. Operations apply sequentially; if a later operation fails, earlier operations remain applied and the failure reports them. Relative paths resolve from cwd."
    }
}

// ── Patch model ────────────────────────────────────

/// One `@@` section of an update.
pub struct UpdateChunk {
    pub old_lines: Vec<String>,
    pub new_lines: Vec<String>,
    pub change_context: Option<String>,
    pub end_of_file: bool,
}

/// One file operation of a patch.
pub enum Hunk {
    Add { path: String, contents: String },
    Delete { path: String },
    Update { path: String, move_path: Option<String>, chunks: Vec<UpdateChunk> },
}

pub struct SpecChunk {
    pub old_lines: Seq<Seq<char>>,
    pub new_lines: Seq<Seq<char>>,
    pub change_context: Option<Seq<char>>,
    pub end_of_file: bool,
}

pub enum SpecHunk {
    Add { path: Seq<char>, contents: Seq<char> },
    Delete { path: Seq<char> },
    Update { path: Seq<char>, move_path: Option<Seq<char>>, chunks: Seq<SpecChunk> },
}

pub open spec fn opt_view(o: Option<String>) -> Option<Seq<char>> {
    match o {
        Some(s) => Some(s@),
        None => None,
    }
}

impl View for UpdateChunk {
    type V = SpecChunk;

    open spec fn view(&self) -> SpecChunk {
        SpecChunk {
            old_lines: views(self.old_lines@),
            new_lines: views(self.new_lines@),
            change_context: opt_view(self.change_context),
            end_of_file: self.end_of_file,
        }
    }
}

pub open spec fn chunks_view(v: Seq<UpdateChunk>) -> Seq<SpecChunk> {
    v.map_values(|c: UpdateChunk| c@)
}

impl View for Hunk {
    type V = SpecHunk;

    open spec fn view(&self) -> SpecHunk {
        match self {
            Hunk::Add { path, contents } => SpecHunk::Add { path: path@, contents: contents@ },
            Hunk::Delete { path } => SpecHunk::Delete { path: path@ },
            Hunk::Update { path, move_path, chunks } => SpecHunk::Update {
                path: path@,
                move_path: opt_view(*move_path),
                chunks: chunks_view(chunks@),
            },
        }
    }
}

pub open spec fn hunks_view(v: Seq<Hunk>) -> Seq<SpecHunk> {
    v.map_values(|h: Hunk| h@)
}

/// The path a hunk operates on.
pub open spec fn spec_hunk_path(h: SpecHunk) -> Seq<char> {
    match h {
        SpecHunk::Add { path, .. } => path,
        SpecHunk::Delete { path } => path,
        SpecHunk::Update { path, .. } => path,
    }
}

/// The path a hunk operates on.
pub fn hunk_path(hunk: &Hunk) -> (r: &str)
    ensures
        r@ == spec_hunk_path(hunk@),
{
    match hunk {
        Hunk::Add { path, .. } => path.as_str(),
        Hunk::Delete { path } => path.as_str(),
        Hunk::Update { path, .. } => path.as_str(),
    }
}

/// Whether a hunk asks to move the file.
pub fn is_move(hunk: &Hunk) -> (r: bool)
    ensures
        r == (hunk@ matches SpecHunk::Update { move_path: Some(_), .. }),
{
    match hunk {
        Hunk::Update { move_path: Some(_), .. } => true,
        _ => false,
    }
}

// ── Parsing ────────────────────────────────────────

pub open spec fn fwd(p: int, q: int) -> int {
    if p >= q {
        p
    } else {
        q
    }
}

/// Index of the first line at or after `i` that trims to `target`.
pub open spec fn find_marker(lines: Seq<Seq<char>>, target: Seq<char>, i: int) -> Option<int>
    decreases lines.len() - i,
{
    if i < 0 || i >= lines.len() {
        None
    } else if trim(lines[i]) == target {
        Some(i)
    } else {
        find_marker(lines, target, i + 1)
    }
}

/// Lines of an added file, from `index` to the next `***` line.
pub open spec fn add_scan(lines: Seq<Seq<char>>, index: int) -> Result<
    (Seq<Seq<char>>, int),
    Seq<char>,
>
    decreases lines.len() - index,
{
    if index < 0 || index >= lines.len() || starts_with(lines[index], "***"@) {
        Ok((seq![], index))
    } else {
        match strip_prefix(lines[index], "+"@) {
            None => Err("invalid add file line: "@ + lines[index]),
            Some(rest) => match add_scan(lines, index + 1) {
                Ok((content, next)) => Ok((seq![rest] + content, next)),
                Err(e) => Err(e),
            },
        }
    }
}

/// Body of one `@@` chunk from `index` on: old and new lines so far, then
/// whether it ends the file and where the next chunk starts.
pub open spec fn chunk_body(
    lines: Seq<Seq<char>>,
    index: int,
    old: Seq<Seq<char>>,
    new: Seq<Seq<char>>,
) -> Result<(Seq<Seq<char>>, Seq<Seq<char>>, bool, int), Seq<char>>
    decreases lines.len() - index,
{
    if index < 0 || index >= lines.len() || starts_with(lines[index], "@@"@) {
        Ok((old, new, false, index))
    } else {
        let line = lines[index];
        if line == "*** End of File"@ {
            Ok((old, new, true, index + 1))
        } else if starts_with(line, "***"@) {
            Ok((old, new, false, index))
        } else if strip_prefix(line, " "@) is Some {
            let rest = strip_prefix(line, " "@).unwrap();
            chunk_body(lines, index + 1, old.push(rest), new.push(rest))
        } else if strip_prefix(line, "-"@) is Some {
            chunk_body(lines, index + 1, old.push(strip_prefix(line, "-"@).unwrap()), new)
        } else if strip_prefix(line, "+"@) is Some {
            chunk_body(lines, index + 1, old, new.push(strip_prefix(line, "+"@).unwrap()))
        } else if line.len() == 0 {
            chunk_body(lines, index + 1, old.push(seq![]), new.push(seq![]))
        } else {
            Err("invalid update chunk line: "@ + line)
        }
    }
}

/// The context of an `@@` line: the trimmed rest, when not empty.
pub open spec fn context_of(rest: Seq<char>) -> Option<Seq<char>> {
    if trim(rest).len() == 0 {
        None
    } else {
        Some(trim(rest))
    }
}

/// Chunks of an update, from `index` to the next `***` line.
pub open spec fn update_scan(lines: Seq<Seq<char>>, index: int) -> Result<
    (Seq<SpecChunk>, int),
    Seq<char>,
>
    decreases left(index, lines.len() as int),
{
    if index < 0 || index >= lines.len() || starts_with(lines[index], "***"@) {
        Ok((seq![], index))
    } else {
        match strip_prefix(lines[index], "@@"@) {
            None => Err("invalid update file line: "@ + lines[index]),
            Some(rest) => match chunk_body(lines, index + 1, seq![], seq![]) {
                Err(e) => Err(e),
                Ok((old, new, eof, next)) => {
                    let chunk = SpecChunk {
                        old_lines: old,
                        new_lines: new,
                        change_context: context_of(rest),
                        end_of_file: eof,
                    };
                    match update_scan(lines, fwd(next, index + 1)) {
                        Ok((cs, after)) => Ok((seq![chunk] + cs, after)),
                        Err(e) => Err(e),
                    }
                },
            },
        }
    }
}

/// Positions left before `end`.
pub open spec fn left(index: int, end: int) -> nat {
    if index < end {
        (end - index) as nat
    } else {
        0
    }
}

/// The optional `*** Move to:` line after an update header at `next`:
/// the target and the index after it.
pub open spec fn move_line(lines: Seq<Seq<char>>, next: int) -> Result<
    (Option<Seq<char>>, int),
    Seq<char>,
> {
    if 0 <= next < lines.len() && strip_prefix(lines[next], "*** Move to:"@) is Some {
        let target = trim(strip_prefix(lines[next], "*** Move to:"@).unwrap());
        if target.len() == 0 {
            Err("invalid move file path"@)
        } else {
            Ok((Some(target), next + 1))
        }
    } else {
        Ok((None, next))
    }
}

/// The file operation whose header line is at `index`, with the index of
/// the line after it.
pub open spec fn hunk_at(lines: Seq<Seq<char>>, index: int) -> Result<(SpecHunk, int), Seq<char>> {
    let line = lines[index];
    if strip_prefix(line, "*** Add File:"@) is Some {
        let path = trim(strip_prefix(line, "*** Add File:"@).unwrap());
        if path.len() == 0 {
            Err("invalid add file path"@)
        } else {
            match add_scan(lines, index + 1) {
                Err(e) => Err(e),
                Ok((content, next)) => Ok(
                    (SpecHunk::Add { path, contents: join(content, "\n"@) }, next),
                ),
            }
        }
    } else if strip_prefix(line, "*** Delete File:"@) is Some {
        let path = trim(strip_prefix(line, "*** Delete File:"@).unwrap());
        if path.len() == 0 {
            Err("invalid delete file path"@)
        } else {
            Ok((SpecHunk::Delete { path }, index + 1))
        }
    } else if strip_prefix(line, "*** Update File:"@) is Some {
        let path = trim(strip_prefix(line, "*** Update File:"@).unwrap());
        if path.len() == 0 {
            Err("invalid update file path"@)
        } else {
            match move_line(lines, index + 1) {
                Err(e) => Err(e),
                Ok((move_path, next)) => match update_scan(lines, next) {
                    Err(e) => Err(e),
                    Ok((chunks, after)) => if chunks.len() == 0 {
                        Err(
                            "invalid update hunk for "@ + path + ": expected at least one @@ chunk"@,
                        )
                    } else {
                        Ok((SpecHunk::Update { path, move_path, chunks }, after))
                    },
                },
            }
        }
    } else {
        Err("invalid patch line: "@ + line)
    }
}

/// File operations from line `index` up to the end marker at `end`.
pub open spec fn patch_scan(lines: Seq<Seq<char>>, index: int, end: int) -> Result<
    Seq<SpecHunk>,
    Seq<char>,
>
    decreases left(index, end),
{
    if index < 0 || index >= end || end > lines.len() {
        Ok(seq![])
    } else {
        match hunk_at(lines, index) {
            Err(e) => Err(e),
            Ok((h, next)) => match patch_scan(lines, fwd(next, index + 1), end) {
                Ok(hs) => Ok(seq![h] + hs),
                Err(e) => Err(e),
            },
        }
    }
}

/// The file operations a patch text describes, or why it is invalid.
pub open spec fn spec_parse_patch(text: Seq<char>) -> Result<Seq<SpecHunk>, Seq<char>> {
    let lines = split_on(trim(text), '\n');
    match (find_marker(lines, "*** Begin Patch"@, 0), find_marker(lines, "*** End Patch"@, 0)) {
        (Some(begin), Some(end)) => if begin >= end {
            Err("missing Begin/End markers"@)
        } else {
            patch_scan(lines, begin + 1, end)
        },
        _ => Err("missing Begin/End markers"@),
    }
}

/// `prefix` followed by `tail`.
fn concat_str(prefix: &str, tail: &str) -> (r: String)
    ensures
        r@ == prefix@ + tail@,
{
    let mut r = String::from_str(prefix);
    r.append(tail);
    r
}

fn find_marker_exec(lines: &Vec<String>, target: &str) -> (r: Option<usize>)
    ensures
        match r {
            Some(i) => find_marker(views(lines@), target@, 0) == Some(i as int),
            None => find_marker(views(lines@), target@, 0) is None,
        },
{
    let ghost ls = views(lines@);
    let mut i: usize = 0;
    while i < lines.len()
        invariant
            ls == views(lines@),
            ls.len() == lines.len(),
            i <= lines.len(),
            find_marker(ls, target@, 0) == find_marker(ls, target@, i as int),
        decreases lines.len() - i,
    {
        let t = trim_str(lines[i].as_str());
        assert(ls[i as int] == lines@[i as int]@);
        if str_eq(t.as_str(), target) {
            return Some(i);
        }
        i += 1;
    }
    None
}

fn parse_add(lines: &Vec<String>, start: usize) -> (r: Result<(String, usize), String>)
    requires
        start <= lines.len(),
    ensures
        match r {
            Ok((c, n)) => add_scan(views(lines@), start as int) matches Ok((content, next)) && c@
                == join(content, "\n"@) && n == next && start <= n <= lines.len(),
            Err(e) => add_scan(views(lines@), start as int) == Err::<(Seq<Seq<char>>, int), _>(e@),
        },
{
    let ghost ls = views(lines@);
    let mut content: Vec<String> = Vec::new();
    let mut index = start;
    while index < lines.len() && !starts_with_str(lines[index].as_str(), "***")
        invariant
            ls == views(lines@),
            ls.len() == lines.len(),
            start <= index <= lines.len(),
            add_scan(ls, start as int) == match add_scan(ls, index as int) {
                Ok((c, n)) => Ok((views(content@) + c, n)),
                Err(e) => Err(e),
            },
        decreases lines.len() - index,
    {
        assert(ls[index as int] == lines@[index as int]@);
        match strip_prefix_str(lines[index].as_str(), "+") {
            None => {
                return Err(concat_str("invalid add file line: ", lines[index].as_str()));
            },
            Some(rest) => {
                let ghost c0 = views(content@);
                content.push(rest);
                proof {
                    assert(views(content@) =~= c0.push(rest@));
                    match add_scan(ls, index + 1) {
                        Ok((c, n)) => {
                            assert(c0 + (seq![rest@] + c) =~= c0.push(rest@) + c);
                        },
                        Err(e) => {},
                    }
                }
                index += 1;
            },
        }
    }
    proof {
        assert(views(content@) + Seq::<Seq<char>>::empty() =~= views(content@));
    }
    Ok((join_str(&content, "\n"), index))
}

/// Parses the body of one `@@` chunk starting at `index`.
fn parse_chunk_body(lines: &Vec<String>, start: usize) -> (r: Result<
    (Vec<String>, Vec<String>, bool, usize),
    String,
>)
    requires
        start <= lines.len(),
    ensures
        match r {
            Ok((o, n, eof, next)) => chunk_body(views(lines@), start as int, seq![], seq![]) == Ok::<
                _,
                Seq<char>,
            >((views(o@), views(n@), eof, next as int)) && start <= next <= lines.len(),
            Err(e) => chunk_body(views(lines@), start as int, seq![], seq![]) is Err
                && chunk_body(views(lines@), start as int, seq![], seq![])->Err_0 == e@,
        },
{
    let ghost ls = views(lines@);
    let mut old_lines: Vec<String> = Vec::new();
    let mut new_lines: Vec<String> = Vec::new();
    let mut index = start;
    proof {
        assert(views(old_lines@) =~= Seq::<Seq<char>>::empty());
        assert(views(new_lines@) =~= Seq::<Seq<char>>::empty());
    }
    while index < lines.len() && !starts_with_str(lines[index].as_str(), "@@")
        invariant
            ls == views(lines@),
            ls.len() == lines.len(),
            start <= index <= lines.len(),
            chunk_body(ls, start as int, seq![], seq![]) == chunk_body(
                ls,
                index as int,
                views(old_lines@),
                views(new_lines@),
            ),
        decreases lines.len() - index,
    {
        let line = lines[index].as_str();
        assert(ls[index as int] == line@);
        let ghost o0 = views(old_lines@);
        let ghost n0 = views(new_lines@);
        if str_eq(line, "*** End of File") {
            return Ok((old_lines, new_lines, true, index + 1));
        }
        if starts_with_str(line, "***") {
            return Ok((old_lines, new_lines, false, index));
        }
        if let Some(rest) = strip_prefix_str(line, " ") {
            old_lines.push(rest.clone());
            new_lines.push(rest);
            proof {
                assert(views(old_lines@) =~= o0.push(rest@));
                assert(views(new_lines@) =~= n0.push(rest@));
            }
        } else if let Some(rest) = strip_prefix_str(line, "-") {
            old_lines.push(rest);
            proof {
                assert(views(old_lines@) =~= o0.push(rest@));
                assert(views(new_lines@) =~= n0);
            }
        } else if let Some(rest) = strip_prefix_str(line, "+") {
            new_lines.push(rest);
            proof {
                assert(views(old_lines@) =~= o0);
                assert(views(new_lines@) =~= n0.push(rest@));
            }
        } else if line.unicode_len() == 0 {
            old_lines.push(String::new());
            new_lines.push(String::new());
            proof {
                assert(views(old_lines@) =~= o0.push(seq![]));
                assert(views(new_lines@) =~= n0.push(seq![]));
            }
        } else {
            return Err(concat_str("invalid update chunk line: ", line));
        }
        index += 1;
    }
    Ok((old_lines, new_lines, false, index))
}

fn parse_update(lines: &Vec<String>, start: usize) -> (r: Result<(Vec<UpdateChunk>, usize), String>)
    requires
        start <= lines.len(),
    ensures
        match r {
            Ok((cs, n)) => update_scan(views(lines@), start as int) == Ok::<_, Seq<char>>(
                (chunks_view(cs@), n as int),
            ) && start <= n <= lines.len(),
            Err(e) => update_scan(views(lines@), start as int) is Err && update_scan(
                views(lines@),
                start as int,
            )->Err_0 == e@,
        },
{
    let ghost ls = views(lines@);
    let mut chunks: Vec<UpdateChunk> = Vec::new();
    let mut index = start;
    while index < lines.len() && !starts_with_str(lines[index].as_str(), "***")
        invariant
            ls == views(lines@),
            ls.len() == lines.len(),
            start <= index <= lines.len(),
            update_scan(ls, start as int) == match update_scan(ls, index as int) {
                Ok((cs, n)) => Ok((chunks_view(chunks@) + cs, n)),
                Err(e) => Err(e),
            },
        decreases lines.len() - index,
    {
        assert(ls[index as int] == lines@[index as int]@);
        let context_rest = match strip_prefix_str(lines[index].as_str(), "@@") {
            Some(rest) => rest,
            None => {
                return Err(concat_str("invalid update file line: ", lines[index].as_str()));
            },
        };
        let trimmed = trim_str(context_rest.as_str());
        let change_context = if trimmed.unicode_len() == 0 {
            None
        } else {
            Some(trimmed)
        };
        match parse_chunk_body(lines, index + 1) {
            Err(e) => {
                return Err(e);
            },
            Ok((old_lines, new_lines, end_of_file, next)) => {
                let ghost c0 = chunks_view(chunks@);
                let chunk = UpdateChunk { old_lines, new_lines, change_context, end_of_file };
                let ghost cv = chunk@;
                chunks.push(chunk);
                proof {
                    assert(chunks_view(chunks@) =~= c0.push(cv));
                    match update_scan(ls, next as int) {
                        Ok((cs, n)) => {
                            assert(c0 + (seq![cv] + cs) =~= c0.push(cv) + cs);
                        },
                        Err(e) => {},
                    }
                }
                index = next;
            },
        }
    }
    proof {
        assert(chunks_view(chunks@) + Seq::<SpecChunk>::empty() =~= chunks_view(chunks@));
    }
    Ok((chunks, index))
}

/// Parses a patch text into its file operations.
pub fn parse_patch(patch_text: &str) -> (r: Result<Vec<Hunk>, String>)
    ensures
        match r {
            Ok(hs) => spec_parse_patch(patch_text@) == Ok::<_, Seq<char>>(hunks_view(hs@)),
            Err(e) => spec_parse_patch(patch_text@) == Err::<Seq<SpecHunk>, _>(e@),
        },
{
    let trimmed = trim_str(patch_text);
    let lines = split_str(trimmed.as_str(), '\n');
    let ghost ls = views(lines@);
    assert(ls.len() == lines@.len());
    let begin = find_marker_exec(&lines, "*** Begin Patch");
    let end = find_marker_exec(&lines, "*** End Patch");
    let (begin, end) = match (begin, end) {
        (Some(b), Some(e)) => (b, e),
        _ => {
            return Err(String::from_str("missing Begin/End markers"));
        },
    };
    if begin >= end {
        return Err(String::from_str("missing Begin/End markers"));
    }
    proof {
        lemma_find_marker(ls, "*** End Patch"@, 0);
    }
    let mut hunks: Vec<Hunk> = Vec::new();
    let mut index = begin + 1;
    while index < end
        invariant
            ls == views(lines@),
            ls.len() == lines.len(),
            begin < end < lines.len(),
            index <= lines.len(),
            spec_parse_patch(patch_text@) == patch_scan(ls, begin + 1, end as int),
            patch_scan(ls, begin + 1, end as int) == match patch_scan(ls, index as int, end as int) {
                Ok(hs) => Ok(hunks_view(hunks@) + hs),
                Err(e) => Err(e),
            },
        decreases lines.len() - index,
    {
        let ghost h0 = hunks_view(hunks@);
        let (h, next) = match parse_hunk(&lines, index) {
            Ok(x) => x,
            Err(e) => {
                return Err(e);
            },
        };
        let ghost hv = h@;
        hunks.push(h);
        proof {
            assert(hunks_view(hunks@) =~= h0.push(hv));
            match patch_scan(ls, next as int, end as int) {
                Ok(hs) => {
                    assert(h0 + (seq![hv] + hs) =~= h0.push(hv) + hs);
                },
                Err(e) => {},
            }
        }
        index = next;
    }
    proof {
        assert(hunks_view(hunks@) + Seq::<SpecHunk>::empty() =~= hunks_view(hunks@));
    }
    Ok(hunks)
}

/// Parses the file operation whose header line is at `index`.
fn parse_hunk(lines: &Vec<String>, index: usize) -> (r: Result<(Hunk, usize), String>)
    requires
        index < lines.len(),
    ensures
        match r {
            Ok((h, n)) => hunk_at(views(lines@), index as int) == Ok::<_, Seq<char>>(
                (h@, n as int),
            ) && index < n <= lines.len(),
            Err(e) => hunk_at(views(lines@), index as int) is Err && hunk_at(
                views(lines@),
                index as int,
            )->Err_0 == e@,
        },
{
    let ghost ls = views(lines@);
    assert(ls.len() == lines.len());
    let line = lines[index].as_str();
    assert(ls[index as int] == line@);
    if let Some(rest) = strip_prefix_str(line, "*** Add File:") {
        let path = trim_str(rest.as_str());
        if path.unicode_len() == 0 {
            return Err(String::from_str("invalid add file path"));
        }
        let (contents, next) = match parse_add(lines, index + 1) {
            Ok(x) => x,
            Err(e) => {
                return Err(e);
            },
        };
        return Ok((Hunk::Add { path, contents }, next));
    }
    if let Some(rest) = strip_prefix_str(line, "*** Delete File:") {
        let path = trim_str(rest.as_str());
        if path.unicode_len() == 0 {
            return Err(String::from_str("invalid delete file path"));
        }
        return Ok((Hunk::Delete { path }, index + 1));
    }
    if let Some(rest) = strip_prefix_str(line, "*** Update File:") {
        let path = trim_str(rest.as_str());
        if path.unicode_len() == 0 {
            return Err(String::from_str("invalid update file path"));
        }
        let mut next = index + 1;
        let mut move_path: Option<String> = None;
        if next < lines.len() {
            assert(ls[next as int] == lines@[next as int]@);
            if let Some(move_line) = strip_prefix_str(lines[next].as_str(), "*** Move to:") {
                let target = trim_str(move_line.as_str());
                if target.unicode_len() == 0 {
                    return Err(String::from_str("invalid move file path"));
                }
                move_path = Some(target);
                next += 1;
            }
        }
        let (chunks, after) = match parse_update(lines, next) {
            Ok(x) => x,
            Err(e) => {
                return Err(e);
            },
        };
        if chunks.len() == 0 {
            let mut e = String::from_str("invalid update hunk for ");
            e.append(path.as_str());
            e.append(": expected at least one @@ chunk");
            proof {
                assert(chunks_view(chunks@).len() == 0);
            }
            return Err(e);
        }
        proof {
            assert(chunks_view(chunks@).len() != 0);
        }
        return Ok((Hunk::Update { path, move_path, chunks }, after));
    }
    Err(concat_str("invalid patch line: ", line))
}

proof fn lemma_find_marker(lines: Seq<Seq<char>>, target: Seq<char>, i: int)
    requires
        0 <= i,
    ensures
        find_marker(lines, target, i) matches Some(k) ==> i <= k < lines.len(),
    decreases lines.len() - i,
{
    if i < lines.len() && trim(lines[i]) != target {
        lemma_find_marker(lines, target, i + 1);
    }
}

// ── Applying an update ─────────────────────────────

/// A replacement: start line, number of lines removed, lines inserted.
pub type Rep = (int, int, Seq<Seq<char>>);

pub open spec fn rep_view(r: (usize, usize, Vec<String>)) -> Rep {
    (r.0 as int, r.1 as int, views(r.2@))
}

pub open spec fn reps_view(v: Seq<(usize, usize, Vec<String>)>) -> Seq<Rep> {
    v.map_values(|r: (usize, usize, Vec<String>)| rep_view(r))
}

/// Line comparison of a given strictness: 0 exact, 1 ignoring trailing
/// whitespace, 2 ignoring surrounding whitespace.
pub open spec fn line_eq(mode: u8, a: Seq<char>, b: Seq<char>) -> bool {
    if mode == 0 {
        a == b
    } else if mode == 1 {
        trim_end(a) == trim_end(b)
    } else {
        trim(a) == trim(b)
    }
}

/// Whether `pat` matches `lines` at offset `off`.
pub open spec fn matches_at(lines: Seq<Seq<char>>, pat: Seq<Seq<char>>, off: int, mode: u8) -> bool {
    forall|i: int| 0 <= i < pat.len() ==> line_eq(mode, #[trigger] lines[off + i], pat[i])
}

/// First offset in `off..=last` where `pat` matches.
pub open spec fn first_match(
    lines: Seq<Seq<char>>,
    pat: Seq<Seq<char>>,
    mode: u8,
    off: int,
    last: int,
) -> Option<int>
    decreases last + 1 - off,
{
    if off < 0 || off > last {
        None
    } else if matches_at(lines, pat, off, mode) {
        Some(off)
    } else {
        first_match(lines, pat, mode, off + 1, last)
    }
}

/// Search with one strictness: the end of the file first when `eof`, then
/// every offset from `start` on.
pub open spec fn seek_mode(
    lines: Seq<Seq<char>>,
    pat: Seq<Seq<char>>,
    start: int,
    eof: bool,
    mode: u8,
) -> Option<int> {
    let last = lines.len() - pat.len();
    if eof && last >= start && matches_at(lines, pat, last, mode) {
        Some(last)
    } else {
        first_match(lines, pat, mode, start, last)
    }
}

/// Where `pat` occurs in `lines` from `start` on, trying exact, then
/// trailing-whitespace-insensitive, then whitespace-insensitive matching.
pub open spec fn spec_seek(lines: Seq<Seq<char>>, pat: Seq<Seq<char>>, start: int, eof: bool) -> Option<
    int,
> {
    if pat.len() == 0 || pat.len() > lines.len() {
        None
    } else if seek_mode(lines, pat, start, eof, 0) is Some {
        seek_mode(lines, pat, start, eof, 0)
    } else if seek_mode(lines, pat, start, eof, 1) is Some {
        seek_mode(lines, pat, start, eof, 1)
    } else {
        seek_mode(lines, pat, start, eof, 2)
    }
}

pub fn cmp_exact(left: &str, right: &str) -> (r: bool)
    ensures
        r == line_eq(0, left@, right@),
{
    str_eq(left, right)
}

pub fn cmp_rstrip(left: &str, right: &str) -> (r: bool)
    ensures
        r == line_eq(1, left@, right@),
{
    let a = trim_end_str(left);
    let b = trim_end_str(right);
    a == b
}

pub fn cmp_trim(left: &str, right: &str) -> (r: bool)
    ensures
        r == line_eq(2, left@, right@),
{
    let a = trim_str(left);
    let b = trim_str(right);
    a == b
}

/// Compares two lines with the given strictness.
fn line_eq_exec(mode: u8, a: &str, b: &str) -> (r: bool)
    ensures
        r == line_eq(mode, a@, b@),
{
    if mode == 0 {
        cmp_exact(a, b)
    } else if mode == 1 {
        cmp_rstrip(a, b)
    } else {
        cmp_trim(a, b)
    }
}

fn matches_at_exec(lines: &Vec<String>, pattern: &Vec<String>, offset: usize, mode: u8) -> (r: bool)
    requires
        offset + pattern.len() <= lines.len(),
        mode < 3,
    ensures
        r == matches_at(views(lines@), views(pattern@), offset as int, mode),
{
    let ghost ls = views(lines@);
    let ghost ps = views(pattern@);
    let mut i: usize = 0;
    while i < pattern.len()
        invariant
            ls == views(lines@),
            ps == views(pattern@),
            offset + pattern.len() <= lines.len(),
            mode < 3,
            i <= pattern.len(),
            forall|k: int| 0 <= k < i ==> line_eq(mode, #[trigger] ls[offset + k], ps[k]),
        decreases pattern.len() - i,
    {
        let a = lines[offset + i].as_str();
        let b = pattern[i].as_str();
        assert(ls[offset + i] == a@);
        assert(ps[i as int] == b@);
        if !line_eq_exec(mode, a, b) {
            return false;
        }
        i += 1;
    }
    true
}

fn seek_mode_exec(
    lines: &Vec<String>,
    pattern: &Vec<String>,
    start: usize,
    eof: bool,
    mode: u8,
) -> (r: Option<usize>)
    requires
        0 < pattern.len() <= lines.len(),
        mode < 3,
    ensures
        match r {
            Some(i) => seek_mode(views(lines@), views(pattern@), start as int, eof, mode) == Some(
                i as int,
            ) && i + pattern.len() <= lines.len(),
            None => seek_mode(views(lines@), views(pattern@), start as int, eof, mode) is None,
        },
{
    let ghost ls = views(lines@);
    let ghost ps = views(pattern@);
    assert(ls.len() == lines.len() && ps.len() == pattern.len());
    let last = lines.len() - pattern.len();
    if eof && last >= start && matches_at_exec(lines, pattern, last, mode) {
        return Some(last);
    }
    let mut off = start;
    while off <= last
        invariant
            ls == views(lines@),
            ps == views(pattern@),
            ls.len() == lines.len(),
            ps.len() == pattern.len(),
            last == lines.len() - pattern.len(),
            mode < 3,
            start <= off,
            seek_mode(ls, ps, start as int, eof, mode) == first_match(ls, ps, mode, start as int, last as int),
            first_match(ls, ps, mode, start as int, last as int) == first_match(
                ls,
                ps,
                mode,
                off as int,
                last as int,
            ),
        decreases last + 1 - off,
    {
        if matches_at_exec(lines, pattern, off, mode) {
            return Some(off);
        }
        off += 1;
    }
    None
}

/// Where `pattern` occurs in `lines` from `start` on (see `spec_seek`).
pub fn seek(lines: &Vec<String>, pattern: &Vec<String>, start: usize, eof: bool) -> (r: Option<usize>)
    ensures
        match r {
            Some(i) => spec_seek(views(lines@), views(pattern@), start as int, eof) == Some(i as int)
                && i + pattern.len() <= lines.len(),
            None => spec_seek(views(lines@), views(pattern@), start as int, eof) is None,
        },
{
    if pattern.len() == 0 || pattern.len() > lines.len() {
        return None;
    }
    let r0 = seek_mode_exec(lines, pattern, start, eof, 0);
    if r0.is_some() {
        return r0;
    }
    let r1 = seek_mode_exec(lines, pattern, start, eof, 1);
    if r1.is_some() {
        return r1;
    }
    seek_mode_exec(lines, pattern, start, eof, 2)
}

/// Where the next chunk starts searching once its context line is found.
pub open spec fn ctx_step(
    lines: Seq<Seq<char>>,
    path: Seq<char>,
    ctx: Option<Seq<char>>,
    li: int,
) -> Result<int, Seq<char>> {
    match ctx {
        None => Ok(li),
        Some(c) => match spec_seek(lines, seq![c], li, false) {
            None => Err("Failed to find context '"@ + c + "' in "@ + path),
            Some(f) => Ok(f + 1),
        },
    }
}

pub open spec fn last_empty(s: Seq<Seq<char>>) -> bool {
    s.len() > 0 && s.last().len() == 0
}

/// The replacement a chunk with old lines makes, searching from `li`; with
/// where the next chunk searches from. A chunk whose old lines end with an
/// empty line is retried without it (and without a trailing empty new line).
pub open spec fn chunk_rep(lines: Seq<Seq<char>>, path: Seq<char>, ch: SpecChunk, li: int) -> Result<
    (Rep, int),
    Seq<char>,
> {
    let f1 = spec_seek(lines, ch.old_lines, li, ch.end_of_file);
    let retry = f1 is None && last_empty(ch.old_lines);
    let old2 = if retry {
        ch.old_lines.drop_last()
    } else {
        ch.old_lines
    };
    let new2 = if retry && last_empty(ch.new_lines) {
        ch.new_lines.drop_last()
    } else {
        ch.new_lines
    };
    let f2 = if retry {
        spec_seek(lines, old2, li, ch.end_of_file)
    } else {
        f1
    };
    match f2 {
        None => Err(
            "Failed to find expected lines in "@ + path + ":\n"@ + join(ch.old_lines, "\n"@),
        ),
        Some(f) => Ok(((f, old2.len() as int, new2), f + old2.len())),
    }
}

/// Replacements made by `chunks[k..]`, searching from line `li`.
pub open spec fn comp(
    lines: Seq<Seq<char>>,
    path: Seq<char>,
    chunks: Seq<SpecChunk>,
    k: int,
    li: int,
) -> Result<Seq<Rep>, Seq<char>>
    decreases chunks.len() - k,
{
    if k < 0 || k >= chunks.len() {
        Ok(seq![])
    } else {
        let ch = chunks[k];
        match ctx_step(lines, path, ch.change_context, li) {
            Err(e) => Err(e),
            Ok(li1) => if ch.old_lines.len() == 0 {
                match comp(lines, path, chunks, k + 1, li1) {
                    Ok(rest) => Ok(seq![(lines.len() as int, 0int, ch.new_lines)] + rest),
                    Err(e) => Err(e),
                }
            } else {
                match chunk_rep(lines, path, ch, li1) {
                    Err(e) => Err(e),
                    Ok((rep, li2)) => match comp(lines, path, chunks, k + 1, li2) {
                        Ok(rest) => Ok(seq![rep] + rest),
                        Err(e) => Err(e),
                    },
                }
            },
        }
    }
}

/// `x` inserted into `sorted` after every element whose start is not larger.
pub open spec fn ins(sorted: Seq<Rep>, x: Rep) -> Seq<Rep>
    decreases sorted.len(),
{
    if sorted.len() == 0 {
        seq![x]
    } else if x.0 < sorted.last().0 {
        ins(sorted.drop_last(), x).push(sorted.last())
    } else {
        sorted.push(x)
    }
}

/// Replacements sorted by start line, keeping the order of equal starts.
pub open spec fn isort(s: Seq<Rep>) -> Seq<Rep>
    decreases s.len(),
{
    if s.len() == 0 {
        s
    } else {
        ins(isort(s.drop_last()), s.last())
    }
}

/// `v` with the lines of a replacement put in place of the removed ones.
pub open spec fn splice_rep(v: Seq<Seq<char>>, r: Rep) -> Seq<Seq<char>> {
    let len = v.len() as int;
    let st = if 0 <= r.0 <= len {
        r.0
    } else if r.0 < 0 {
        0
    } else {
        len
    };
    let en0 = if r.0 + r.1 <= len {
        r.0 + r.1
    } else {
        len
    };
    let en = if en0 >= st {
        en0
    } else {
        st
    };
    v.subrange(0, st) + r.2 + v.subrange(en, len)
}

/// `v` with `reps[0..n]` applied, last one first.
pub open spec fn apply_rev(v: Seq<Seq<char>>, reps: Seq<Rep>, n: int) -> Seq<Seq<char>>
    decreases n,
{
    if n <= 0 || n > reps.len() {
        v
    } else {
        apply_rev(splice_rep(v, reps[n - 1]), reps, n - 1)
    }
}

/// Lines of a file's text, without the empty piece after a final newline.
pub open spec fn base_lines(original: Seq<char>) -> Seq<Seq<char>> {
    let ls = split_on(original, '\n');
    if ls.last().len() == 0 {
        ls.drop_last()
    } else {
        ls
    }
}

/// The text of a file after an update's chunks are applied to it.
pub open spec fn spec_derive(path: Seq<char>, chunks: Seq<SpecChunk>, original: Seq<char>) -> Result<
    Seq<char>,
    Seq<char>,
> {
    let ls = base_lines(original);
    match comp(ls, path, chunks, 0, 0) {
        Err(e) => Err(e),
        Ok(reps) => {
            let sorted = isort(reps);
            let u = apply_rev(ls, sorted, sorted.len() as int);
            let u2 = if u.len() == 0 || u.last().len() != 0 {
                u.push(seq![])
            } else {
                u
            };
            Ok(join(u2, "\n"@))
        },
    }
}

fn clone_lines(v: &Vec<String>) -> (r: Vec<String>)
    ensures
        views(r@) == views(v@),
{
    let mut out: Vec<String> = Vec::new();
    let mut i: usize = 0;
    while i < v.len()
        invariant
            i <= v.len(),
            views(out@) =~= views(v@).take(i as int),
        decreases v.len() - i,
    {
        let ghost o = views(out@);
        out.push(v[i].clone());
        proof {
            assert(views(out@) =~= o.push(v@[i as int]@));
            assert(views(v@).take(i + 1) =~= views(v@).take(i as int).push(v@[i as int]@));
        }
        i += 1;
    }
    proof {
        assert(views(v@).take(v.len() as int) =~= views(v@));
    }
    out
}

fn is_last_empty(v: &Vec<String>) -> (r: bool)
    ensures
        r == last_empty(views(v@)),
{
    if v.len() == 0 {
        false
    } else {
        assert(views(v@).last() == v@[v.len() - 1]@);
        v[v.len() - 1].unicode_len() == 0
    }
}

fn pop_line(v: &mut Vec<String>)
    requires
        old(v).len() > 0,
    ensures
        views(final(v)@) == views(old(v)@).drop_last(),
{
    v.pop();
    proof {
        assert(views(v@) =~= views(old(v)@).drop_last());
    }
}

/// The replacement one chunk with old lines makes (see `chunk_rep`).
fn chunk_replacement(lines: &Vec<String>, path: &str, chunk: &UpdateChunk, line_index: usize) -> (r:
    Result<((usize, usize, Vec<String>), usize), String>)
    requires
        chunk.old_lines.len() > 0,
    ensures
        match r {
            Ok((rep, li)) => chunk_rep(views(lines@), path@, chunk@, line_index as int) == Ok::<
                _,
                Seq<char>,
            >((rep_view(rep), li as int)) && li <= lines.len(),
            Err(e) => chunk_rep(views(lines@), path@, chunk@, line_index as int) is Err
                && chunk_rep(views(lines@), path@, chunk@, line_index as int)->Err_0 == e@,
        },
{
    let mut old_lines = clone_lines(&chunk.old_lines);
    let mut new_lines = clone_lines(&chunk.new_lines);
    let mut found = seek(lines, &old_lines, line_index, chunk.end_of_file);
    if found.is_none() && is_last_empty(&old_lines) {
        pop_line(&mut old_lines);
        if is_last_empty(&new_lines) {
            pop_line(&mut new_lines);
        }
        found = seek(lines, &old_lines, line_index, chunk.end_of_file);
    }
    match found {
        None => {
            let mut e = String::from_str("Failed to find expected lines in ");
            e.append(path);
            e.append(":\n");
            let joined = join_str(&chunk.old_lines, "\n");
            e.append(joined.as_str());
            proof {
                assert(e@ =~= "Failed to find expected lines in "@ + path@ + ":\n"@ + join(
                    chunk@.old_lines,
                    "\n"@,
                ));
            }
            Err(e)
        },
        Some(f) => {
            let remove = old_lines.len();
            assert(views(old_lines@).len() == remove);
            Ok(((f, remove, new_lines), f + remove))
        },
    }
}

/// The replacements an update's chunks make to `lines`, in chunk order.
pub fn compute_replacements(lines: &Vec<String>, path: &str, chunks: &Vec<UpdateChunk>) -> (r:
    Result<Vec<(usize, usize, Vec<String>)>, String>)
    ensures
        match r {
            Ok(reps) => comp(views(lines@), path@, chunks_view(chunks@), 0, 0) == Ok::<
                _,
                Seq<char>,
            >(reps_view(reps@)),
            Err(e) => comp(views(lines@), path@, chunks_view(chunks@), 0, 0) == Err::<
                Seq<Rep>,
                _,
            >(e@),
        },
{
    let ghost ls = views(lines@);
    let ghost cs = chunks_view(chunks@);
    assert(ls.len() == lines.len());
    let mut replacements: Vec<(usize, usize, Vec<String>)> = Vec::new();
    let mut line_index: usize = 0;
    let mut k: usize = 0;
    while k < chunks.len()
        invariant
            ls == views(lines@),
            cs == chunks_view(chunks@),
            ls.len() == lines.len(),
            cs.len() == chunks.len(),
            k <= chunks.len(),
            line_index <= lines.len(),
            comp(ls, path@, cs, 0, 0) == match comp(ls, path@, cs, k as int, line_index as int) {
                Ok(rest) => Ok(reps_view(replacements@) + rest),
                Err(e) => Err(e),
            },
        decreases chunks.len() - k,
    {
        let chunk = &chunks[k];
        assert(cs[k as int] == chunk@);
        let ghost r0 = reps_view(replacements@);
        let li1 = match &chunk.change_context {
            Some(context) => {
                let mut pat: Vec<String> = Vec::new();
                pat.push(context.clone());
                proof {
                    assert(views(pat@) =~= seq![context@]);
                }
                match seek(lines, &pat, line_index, false) {
                    None => {
                        let mut e = String::from_str("Failed to find context '");
                        e.append(context.as_str());
                        e.append("' in ");
                        e.append(path);
                        return Err(e);
                    },
                    Some(f) => f + 1,
                }
            },
            None => line_index,
        };
        if chunk.old_lines.len() == 0 {
            let rep = (lines.len(), 0usize, clone_lines(&chunk.new_lines));
            let ghost rv = rep_view(rep);
            replacements.push(rep);
            proof {
                assert(views(chunk.old_lines@).len() == 0);
                assert(reps_view(replacements@) =~= r0.push(rv));
                match comp(ls, path@, cs, k + 1, li1 as int) {
                    Ok(rest) => {
                        assert(r0 + (seq![rv] + rest) =~= r0.push(rv) + rest);
                    },
                    Err(e) => {},
                }
            }
            line_index = li1;
            k += 1;
            continue;
        }
        proof {
            assert(views(chunk.old_lines@).len() != 0);
        }
        match chunk_replacement(lines, path, chunk, li1) {
            Err(e) => {
                return Err(e);
            },
            Ok((rep, li2)) => {
                let ghost rv = rep_view(rep);
                replacements.push(rep);
                proof {
                    assert(reps_view(replacements@) =~= r0.push(rv));
                    match comp(ls, path@, cs, k + 1, li2 as int) {
                        Ok(rest) => {
                            assert(r0 + (seq![rv] + rest) =~= r0.push(rv) + rest);
                        },
                        Err(e) => {},
                    }
                }
                line_index = li2;
                k += 1;
            },
        }
    }
    proof {
        assert(reps_view(replacements@) + Seq::<Rep>::empty() =~= reps_view(replacements@));
    }
    Ok(replacements)
}

proof fn lemma_ins(sorted: Seq<Rep>, x: Rep, j: int)
    requires
        0 <= j <= sorted.len(),
        forall|i: int| j <= i < sorted.len() ==> (#[trigger] sorted[i]).0 > x.0,
        j == 0 || sorted[j - 1].0 <= x.0,
    ensures
        ins(sorted, x) == sorted.insert(j, x),
    decreases sorted.len(),
{
    if sorted.len() == 0 {
        assert(sorted.insert(j, x) =~= seq![x]);
    } else if x.0 < sorted.last().0 {
        assert(j < sorted.len());
        lemma_ins(sorted.drop_last(), x, j);
        assert(sorted.drop_last().insert(j, x).push(sorted.last()) =~= sorted.insert(j, x));
    } else {
        assert(j == sorted.len());
        assert(sorted.push(x) =~= sorted.insert(j, x));
    }
}

/// Sorts replacements by start line, keeping the order of equal starts.
pub fn sort_replacements(reps: Vec<(usize, usize, Vec<String>)>) -> (r: Vec<
    (usize, usize, Vec<String>),
>)
    ensures
        reps_view(r@) == isort(reps_view(reps@)),
{
    let ghost all = reps_view(reps@);
    let mut rest = reps;
    let mut out: Vec<(usize, usize, Vec<String>)> = Vec::new();
    let ghost mut i: int = 0;
    proof {
        assert(all.take(0) =~= Seq::<Rep>::empty());
        assert(reps_view(rest@) =~= all.skip(0));
        assert(reps_view(out@) =~= isort(all.take(0)));
    }
    while rest.len() > 0
        invariant
            0 <= i <= all.len(),
            reps_view(rest@) == all.skip(i),
            reps_view(out@) == isort(all.take(i)),
        decreases rest.len(),
    {
        let ghost before = rest@;
        assert(reps_view(before).len() == before.len());
        let x = rest.remove(0);
        let ghost xv = rep_view(x);
        proof {
            assert(all.skip(i)[0] == xv);
            assert(reps_view(rest@) =~= reps_view(before).skip(1));
            assert(all.skip(i).skip(1) =~= all.skip(i + 1));
            assert(all.take(i + 1).drop_last() =~= all.take(i));
            assert(all.take(i + 1).last() == xv);
        }
        let ghost sorted = reps_view(out@);
        let mut j = out.len();
        while j > 0 && out[j - 1].0 > x.0
            invariant
                j <= out.len(),
                sorted == reps_view(out@),
                xv == rep_view(x),
                forall|k: int| j <= k < out.len() ==> (#[trigger] sorted[k]).0 > xv.0,
            decreases j,
        {
            assert(sorted[j - 1] == rep_view(out@[j - 1]));
            j -= 1;
        }
        proof {
            lemma_ins(sorted, xv, j as int);
        }
        out.insert(j, x);
        proof {
            assert(reps_view(out@) =~= sorted.insert(j as int, xv));
            i = i + 1;
        }
    }
    proof {
        assert(all.take(i) =~= all);
    }
    out
}

/// `v` with one replacement applied (see `splice_rep`).
fn splice_lines(v: &Vec<String>, rep: &(usize, usize, Vec<String>)) -> (r: Vec<String>)
    ensures
        views(r@) == splice_rep(views(v@), rep_view(*rep)),
{
    let ghost vs = views(v@);
    let len = v.len();
    let st = if rep.0 <= len {
        rep.0
    } else {
        len
    };
    let en0 = if rep.1 <= len - st && rep.0 <= len {
        rep.0 + rep.1
    } else {
        len
    };
    let en = if en0 >= st {
        en0
    } else {
        st
    };
    let mut out: Vec<String> = Vec::new();
    let mut i: usize = 0;
    while i < st
        invariant
            i <= st <= len == v.len(),
            views(out@) =~= views(v@).subrange(0, i as int),
        decreases st - i,
    {
        let ghost o = views(out@);
        out.push(v[i].clone());
        proof {
            assert(views(out@) =~= o.push(v@[i as int]@));
        }
        i += 1;
    }
    let mut k: usize = 0;
    while k < rep.2.len()
        invariant
            st <= len == v.len(),
            k <= rep.2.len(),
            views(out@) =~= views(v@).subrange(0, st as int) + views(rep.2@).take(k as int),
        decreases rep.2.len() - k,
    {
        let ghost o = views(out@);
        out.push(rep.2[k].clone());
        proof {
            assert(views(out@) =~= o.push(rep.2@[k as int]@));
            assert(views(rep.2@).take(k + 1) =~= views(rep.2@).take(k as int).push(
                rep.2@[k as int]@,
            ));
        }
        k += 1;
    }
    let mut m = en;
    while m < len
        invariant
            st <= en <= m <= len == v.len(),
            views(out@) =~= views(v@).subrange(0, st as int) + views(rep.2@) + views(v@).subrange(
                en as int,
                m as int,
            ),
        decreases len - m,
    {
        let ghost o = views(out@);
        out.push(v[m].clone());
        proof {
            assert(views(out@) =~= o.push(v@[m as int]@));
        }
        m += 1;
    }
    proof {
        assert(views(rep.2@).take(rep.2.len() as int) =~= views(rep.2@));
    }
    out
}

/// The text of a file after an update's chunks are applied to it.
pub fn derive(path: &str, chunks: &Vec<UpdateChunk>, original: &str) -> (r: Result<String, String>)
    ensures
        match r {
            Ok(t) => spec_derive(path@, chunks_view(chunks@), original@) == Ok::<_, Seq<char>>(t@),
            Err(e) => spec_derive(path@, chunks_view(chunks@), original@) == Err::<Seq<char>, _>(
                e@,
            ),
        },
{
    let mut lines = split_str(original, '\n');
    assert(views(lines@).len() == lines.len());
    if is_last_empty(&lines) {
        pop_line(&mut lines);
    }
    let ghost ls = views(lines@);
    let replacements = match compute_replacements(&lines, path, chunks) {
        Ok(r) => r,
        Err(e) => {
            return Err(e);
        },
    };
    let sorted = sort_replacements(replacements);
    let ghost sv = reps_view(sorted@);
    assert(sv.len() == sorted.len());
    let mut updated = clone_lines(&lines);
    let mut n = sorted.len();
    while n > 0
        invariant
            n <= sorted.len(),
            sv == reps_view(sorted@),
            sv.len() == sorted.len(),
            apply_rev(ls, sv, sv.len() as int) == apply_rev(views(updated@), sv, n as int),
        decreases n,
    {
        assert(sv[n - 1] == rep_view(sorted@[n - 1]));
        updated = splice_lines(&updated, &sorted[n - 1]);
        n -= 1;
    }
    let ghost u = views(updated@);
    if updated.len() == 0 || updated[updated.len() - 1].unicode_len() != 0 {
        updated.push(String::new());
        proof {
            assert(views(updated@) =~= u.push(seq![]));
        }
    }
    Ok(join_str(&updated, "\n"))
}

/// The text written for an added file: its contents, with a final newline
/// unless empty or already ending in one.
pub open spec fn spec_add_body(contents: Seq<char>) -> Seq<char> {
    if contents.len() == 0 || contents.last() == '\n' {
        contents
    } else {
        contents.push('\n')
    }
}

/// The text written for an added file.
pub fn add_body(contents: &str) -> (r: String)
    ensures
        r@ == spec_add_body(contents@),
{
    let n = contents.unicode_len();
    if n == 0 || contents.get_char(n - 1) == '\n' {
        String::from_str(contents)
    } else {
        let mut r = String::from_str(contents);
        crate::text::push_char(&mut r, '\n');
        r
    }
}

/// The report line of an applied hunk: `A`, `D` or `M` and the path.
pub open spec fn spec_hunk_label(h: SpecHunk) -> Seq<char> {
    match h {
        SpecHunk::Add { path, .. } => "A "@ + path,
        SpecHunk::Delete { path } => "D "@ + path,
        SpecHunk::Update { path, .. } => "M "@ + path,
    }
}

/// The report line of an applied hunk.
pub fn hunk_label(hunk: &Hunk) -> (r: String)
    ensures
        r@ == spec_hunk_label(hunk@),
{
    match hunk {
        Hunk::Add { path, .. } => concat_str("A ", path.as_str()),
        Hunk::Delete { path } => concat_str("D ", path.as_str()),
        Hunk::Update { path, .. } => concat_str("M ", path.as_str()),
    }
}


/// Whether some hunk moves its file.
pub open spec fn has_move(hs: Seq<SpecHunk>) -> bool {
    exists|i: int| 0 <= i < hs.len() && (#[trigger] hs[i] matches SpecHunk::Update { move_path: Some(_), .. })
}

/// What a patch text comes to before any file is touched: an error for a
/// blank text, one that does not parse, one without hunks or one that
/// moves a file; else its hunks.
pub open spec fn spec_plan_patch(patch_text: Seq<char>) -> Result<Seq<SpecHunk>, Seq<char>> {
    if trim(patch_text).len() == 0 {
        Err("patchText is required"@)
    } else {
        match spec_parse_patch(patch_text) {
            Err(e) => Err("apply_patch verification failed: "@ + e),
            Ok(hs) => if hs.len() == 0 {
                Err("patch rejected: empty patch"@)
            } else if has_move(hs) {
                Err("apply_patch moves are not supported yet"@)
            } else {
                Ok(hs)
            },
        }
    }
}

/// The hunks of a patch to apply, or why it is refused (see
/// `spec_plan_patch`).
pub fn plan_patch(patch_text: &str) -> (r: Result<Vec<Hunk>, String>)
    ensures
        match r {
            Ok(hs) => spec_plan_patch(patch_text@) == Ok::<_, Seq<char>>(hunks_view(hs@)),
            Err(e) => spec_plan_patch(patch_text@) == Err::<Seq<SpecHunk>, _>(e@),
        },
{
    let t = trim_str(patch_text);
    if t.unicode_len() == 0 {
        return Err(String::from_str("patchText is required"));
    }
    match parse_patch(patch_text) {
        Err(e) => Err(concat_str("apply_patch verification failed: ", e.as_str())),
        Ok(hs) => {
            if hs.len() == 0 {
                return Err(String::from_str("patch rejected: empty patch"));
            }
            let ghost hv = hunks_view(hs@);
            let mut i: usize = 0;
            while i < hs.len()
                invariant
                    hv == hunks_view(hs@),
                    spec_parse_patch(patch_text@) == Ok::<_, Seq<char>>(hv),
                    trim(patch_text@).len() > 0,
                    hs.len() > 0,
                    i <= hs.len(),
                    forall|j: int| 0 <= j < i ==> !(#[trigger] hv[j] matches SpecHunk::Update { move_path: Some(_), .. }),
                decreases hs.len() - i,
            {
                if is_move(&hs[i]) {
                    proof {
                        assert(hv[i as int] == hs@[i as int]@);
                        assert(has_move(hv));
                    }
                    return Err(String::from_str("apply_patch moves are not supported yet"));
                }
                proof {
                    assert(hv[i as int] == hs@[i as int]@);
                }
                i += 1;
            }
            Ok(hs)
        },
    }
}

/// The error of a patch whose hunk failed with `err` after the hunks
/// labelled `applied` were applied.
pub open spec fn spec_patch_failure(applied: Seq<Seq<char>>, err: Seq<char>) -> Seq<char> {
    if applied.len() == 0 {
        "Unable to apply patch: "@ + err
    } else {
        "Patch partially applied before failing: "@ + err + ". Applied: "@ + join(applied, ", "@)
    }
}

/// The error of a patch that failed part way (see `spec_patch_failure`).
pub fn patch_failure(applied: &Vec<String>, err: &str) -> (r: String)
    ensures
        r@ == spec_patch_failure(views(applied@), err@),
{
    if applied.len() == 0 {
        concat_str("Unable to apply patch: ", err)
    } else {
        let mut m = concat_str("Patch partially applied before failing: ", err);
        m.append(". Applied: ");
        let j = join_str(applied, ", ");
        m.append(j.as_str());
        m
    }
}

/// The report of a patch whose hunks all applied: a heading line, then
/// each hunk's label on a line of its own.
pub fn patch_summary(applied: &Vec<String>) -> (r: String)
    ensures
        r@ == join(seq!["Applied patch sequentially:"@] + views(applied@), "\n"@),
{
    let mut lines: Vec<String> = Vec::new();
    lines.push(String::from_str("Applied patch sequentially:"));
    let mut i: usize = 0;
    while i < applied.len()
        invariant
            i <= applied.len(),
            views(lines@) =~= seq!["Applied patch sequentially:"@] + views(applied@).take(i as int),
        decreases applied.len() - i,
    {
        let ghost before = views(lines@);
        let l = applied[i].clone();
        lines.push(l);
        proof {
            assert(views(lines@) =~= before.push(l@));
            assert(views(applied@).take(i + 1) =~= views(applied@).take(i as int).push(applied@[i as int]@));
        }
        i += 1;
    }
    proof {
        assert(views(applied@).take(applied.len() as int) =~= views(applied@));
    }
    join_str(&lines, "\n")
}

proof fn lemma_first_match_bounds(lines: Seq<Seq<char>>, pat: Seq<Seq<char>>, mode: u8, off: int, last: int)
    ensures
        first_match(lines, pat, mode, off, last) matches Some(f) ==> off <= f <= last
            && matches_at(lines, pat, f, mode),
    decreases last + 1 - off,
{
    if 0 <= off <= last && !matches_at(lines, pat, off, mode) {
        lemma_first_match_bounds(lines, pat, mode, off + 1, last);
    }
}

/// A match is found at or after the start of the search, with all of the
/// pattern inside `lines`.
proof fn lemma_seek_bounds(lines: Seq<Seq<char>>, pat: Seq<Seq<char>>, start: int, eof: bool)
    ensures
        spec_seek(lines, pat, start, eof) matches Some(f) ==> start <= f && f + pat.len()
            <= lines.len() && pat.len() > 0,
{
    let last = lines.len() - pat.len();
    lemma_first_match_bounds(lines, pat, 0, start, last);
    lemma_first_match_bounds(lines, pat, 1, start, last);
    lemma_first_match_bounds(lines, pat, 2, start, last);
}

/// A chunk's replacement removes at least one line, lies inside `lines` at
/// or after `li`, and the next chunk searches from the line after it.
proof fn lemma_chunk_rep_bounds(lines: Seq<Seq<char>>, path: Seq<char>, ch: SpecChunk, li: int)
    ensures
        chunk_rep(lines, path, ch, li) matches Ok((rep, li2)) ==> li <= rep.0 && rep.1 > 0
            && rep.0 + rep.1 <= lines.len() && li2 == rep.0 + rep.1,
{
    lemma_seek_bounds(lines, ch.old_lines, li, ch.end_of_file);
    lemma_seek_bounds(lines, ch.old_lines.drop_last(), li, ch.end_of_file);
}

/// Each chunk of an update searches on after the lines that the chunks before
/// it replaced: every replacement that removes lines lies inside the file at
/// or after the line where the search began, and the line ranges that
/// successive chunks replace are disjoint and in increasing order.
pub proof fn lemma_chunks_replace_in_order(
    lines: Seq<Seq<char>>,
    path: Seq<char>,
    chunks: Seq<SpecChunk>,
    k: int,
    li: int,
    reps: Seq<Rep>,
)
    requires
        comp(lines, path, chunks, k, li) == Ok::<Seq<Rep>, Seq<char>>(reps),
    ensures
        forall|j: int|
            0 <= j < reps.len() && #[trigger] reps[j].1 > 0 ==> li <= reps[j].0 && reps[j].0
                + reps[j].1 <= lines.len(),
        forall|j: int, j2: int|
            0 <= j < j2 < reps.len() && #[trigger] reps[j].1 > 0 && #[trigger] reps[j2].1 > 0
                ==> reps[j].0 + reps[j].1 <= reps[j2].0,
    decreases chunks.len() - k,
{
    if 0 <= k < chunks.len() {
        let ch = chunks[k];
        lemma_seek_bounds(lines, seq![ch.change_context.unwrap()], li, false);
        let li1 = ctx_step(lines, path, ch.change_context, li)->Ok_0;
        assert(li1 >= li);
        if ch.old_lines.len() == 0 {
            let rest = comp(lines, path, chunks, k + 1, li1)->Ok_0;
            lemma_chunks_replace_in_order(lines, path, chunks, k + 1, li1, rest);
            assert(reps == seq![(lines.len() as int, 0int, ch.new_lines)] + rest);
            assert forall|j: int, j2: int|
                0 <= j < j2 < reps.len() && #[trigger] reps[j].1 > 0 && #[trigger] reps[j2].1 > 0
                    implies reps[j].0 + reps[j].1 <= reps[j2].0 by {
                assert(reps[j] == rest[j - 1]);
                assert(reps[j2] == rest[j2 - 1]);
            }
            assert forall|j: int| 0 <= j < reps.len() && #[trigger] reps[j].1 > 0 implies li
                <= reps[j].0 && reps[j].0 + reps[j].1 <= lines.len() by {
                assert(reps[j] == rest[j - 1]);
            }
        } else {
            lemma_chunk_rep_bounds(lines, path, ch, li1);
            let (rep, li2) = chunk_rep(lines, path, ch, li1)->Ok_0;
            let rest = comp(lines, path, chunks, k + 1, li2)->Ok_0;
            lemma_chunks_replace_in_order(lines, path, chunks, k + 1, li2, rest);
            assert(reps == seq![rep] + rest);
            assert forall|j: int, j2: int|
                0 <= j < j2 < reps.len() && #[trigger] reps[j].1 > 0 && #[trigger] reps[j2].1 > 0
                    implies reps[j].0 + reps[j].1 <= reps[j2].0 by {
                assert(reps[j2] == rest[j2 - 1]);
                if j > 0 {
                    assert(reps[j] == rest[j - 1]);
                }
            }
            assert forall|j: int| 0 <= j < reps.len() && #[trigger] reps[j].1 > 0 implies li
                <= reps[j].0 && reps[j].0 + reps[j].1 <= lines.len() by {
                if j > 0 {
                    assert(reps[j] == rest[j - 1]);
                }
            }
        }
    }
}

/// The strictness with which a found pattern matches.
proof fn lemma_seek_match(lines: Seq<Seq<char>>, pat: Seq<Seq<char>>, start: int, eof: bool) -> (mode: u8)
    ensures
        spec_seek(lines, pat, start, eof) matches Some(f) ==> mode <= 2 && matches_at(
            lines,
            pat,
            f,
            mode,
        ),
{
    let last = lines.len() - pat.len();
    lemma_first_match_bounds(lines, pat, 0, start, last);
    lemma_first_match_bounds(lines, pat, 1, start, last);
    lemma_first_match_bounds(lines, pat, 2, start, last);
    if seek_mode(lines, pat, start, eof, 0) is Some {
        0
    } else if seek_mode(lines, pat, start, eof, 1) is Some {
        1
    } else {
        2
    }
}

/// Each chunk of an update makes one replacement, in chunk order. A chunk
/// without old lines appends its new lines at the end of the file. Any
/// other chunk replaces lines that read as its old lines (compared exactly,
/// ignoring trailing whitespace, or ignoring surrounding whitespace), all of
/// them, or all but a final empty one, which is then also dropped from the
/// end of its new lines when they end with an empty line.
pub proof fn lemma_chunks_replace_matching_lines(
    lines: Seq<Seq<char>>,
    path: Seq<char>,
    chunks: Seq<SpecChunk>,
    k: int,
    li: int,
    reps: Seq<Rep>,
)
    requires
        0 <= k <= chunks.len(),
        comp(lines, path, chunks, k, li) == Ok::<Seq<Rep>, Seq<char>>(reps),
    ensures
        reps.len() == chunks.len() - k,
        forall|j: int|
            0 <= j < reps.len() && chunks[k + j].old_lines.len() == 0 ==> #[trigger] reps[j] == (
                lines.len() as int,
                0int,
                chunks[k + j].new_lines,
            ),
        forall|j: int|
            0 <= j < reps.len() && chunks[k + j].old_lines.len() > 0 ==> {
                let ch = chunks[k + j];
                let r = #[trigger] reps[j];
                &&& r.1 > 0
                &&& exists|mode: u8|
                    mode <= 2 && matches_at(lines, ch.old_lines.take(r.1), r.0, mode)
                &&& (r.1 == ch.old_lines.len() && r.2 == ch.new_lines) || (r.1 == ch.old_lines.len()
                    - 1 && last_empty(ch.old_lines) && r.2 == (if last_empty(ch.new_lines) {
                    ch.new_lines.drop_last()
                } else {
                    ch.new_lines
                }))
            },
    decreases chunks.len() - k,
{
    if k < chunks.len() {
        let ch = chunks[k];
        let li1 = ctx_step(lines, path, ch.change_context, li)->Ok_0;
        if ch.old_lines.len() == 0 {
            let rest = comp(lines, path, chunks, k + 1, li1)->Ok_0;
            lemma_chunks_replace_matching_lines(lines, path, chunks, k + 1, li1, rest);
            assert(reps == seq![(lines.len() as int, 0int, ch.new_lines)] + rest);
            assert forall|j: int| 0 < j < reps.len() implies #[trigger] reps[j] == rest[j - 1]
                && chunks[k + j] == chunks[(k + 1) + (j - 1)] by {}
        } else {
            lemma_chunk_rep_bounds(lines, path, ch, li1);
            let (rep, li2) = chunk_rep(lines, path, ch, li1)->Ok_0;
            let retry = spec_seek(lines, ch.old_lines, li1, ch.end_of_file) is None && last_empty(
                ch.old_lines,
            );
            let old2 = if retry {
                ch.old_lines.drop_last()
            } else {
                ch.old_lines
            };
            let mode = lemma_seek_match(lines, old2, li1, ch.end_of_file);
            assert(rep.1 == old2.len());
            assert(ch.old_lines.take(rep.1) =~= old2);
            assert(matches_at(lines, ch.old_lines.take(rep.1), rep.0, mode));
            let rest = comp(lines, path, chunks, k + 1, li2)->Ok_0;
            lemma_chunks_replace_matching_lines(lines, path, chunks, k + 1, li2, rest);
            assert(reps == seq![rep] + rest);
            assert(reps[0] == rep);
            assert forall|j: int| 0 < j < reps.len() implies #[trigger] reps[j] == rest[j - 1]
                && chunks[k + j] == chunks[(k + 1) + (j - 1)] by {}
        }
    }
}

} // verus!
