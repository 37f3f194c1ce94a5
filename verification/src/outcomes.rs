//! What the file and process tools decide and report once their I/O is
//! done: edits, writes, deletions, shell output, answers to questions,
//! sub-agent results, and skill lookups.

use vstd::prelude::*;
use crate::num::{decimal, decimal_string};
use crate::text::{
    join, join_str, push_char, replace, replace_str, split_pat, split_pat_exec, str_eq, trim,
    trim_str, views,
};

verus! {

// ---------------------------------------------------------------------------
// Edit
// ---------------------------------------------------------------------------

/// How many times `old` occurs in `content`, counted left to right without
/// overlaps (`str::match_indices`).
pub open spec fn occurrences(content: Seq<char>, old: Seq<char>) -> int {
    split_pat(content, old).len() - 1
}

/// Why an edit was refused.
#[derive(Clone, Copy, Debug, PartialEq, Eq, Structural)]
pub enum EditError {
    /// The text to replace does not occur.
    NotFound,
    /// It occurs this many times and replacing all was not asked for.
    Ambiguous(usize),
}

/// The edited text and the number of replacements reported; every
/// occurrence is replaced, and one must be the only one unless
/// `replace_all` is set.
pub open spec fn spec_plan_edit(content: Seq<char>, old: Seq<char>, new: Seq<char>, replace_all: bool) -> Result<(Seq<char>, int), EditError> {
    let n = occurrences(content, old);
    if n == 0 {
        Err(EditError::NotFound)
    } else if !replace_all && n > 1 {
        Err(EditError::Ambiguous(n as usize))
    } else {
        Ok((replace(content, old, new), if replace_all { n } else { 1 }))
    }
}

/// The refusal for arguments that would change nothing.
pub fn edit_args_error(old: &str, new: &str) -> (r: Option<&'static str>)
    ensures
        old@ == new@ ==> (r matches Some(m) && m@ == "oldString and newString must differ"@),
        old@ != new@ ==> r is None,
{
    if str_eq(old, new) {
        Some("oldString and newString must differ")
    } else {
        None
    }
}

/// Plans an edit (see `spec_plan_edit`).
pub fn plan_edit(content: &str, old: &str, new: &str, replace_all: bool) -> (r: Result<(String, usize), EditError>)
    requires
        old@.len() > 0,
    ensures
        match r {
            Ok((text, n)) => spec_plan_edit(content@, old@, new@, replace_all) == Ok::<(Seq<char>, int), EditError>((text@, n as int)),
            Err(e) => spec_plan_edit(content@, old@, new@, replace_all) == Err::<(Seq<char>, int), EditError>(e),
        },
{
    let pieces = split_pat_exec(content, old);
    proof {
        assert(views(pieces@).len() == pieces@.len());
        assert(split_pat(content@, old@).len() >= 1);
    }
    let n = pieces.len() - 1;
    if n == 0 {
        return Err(EditError::NotFound);
    }
    if !replace_all && n > 1 {
        return Err(EditError::Ambiguous(n));
    }
    let text = replace_str(content, old, new);
    Ok((text, if replace_all { n } else { 1 }))
}

/// The message for a refused edit of the file at `path`.
pub open spec fn spec_edit_error_message(e: EditError, path: Seq<char>) -> Seq<char> {
    match e {
        EditError::NotFound => "oldString not found in "@ + path + ". Check text and indentation."@,
        EditError::Ambiguous(n) => "Found "@ + decimal(n as nat)
            + " matches. Add more context or set replaceAll: true."@,
    }
}

pub fn edit_error_message(e: EditError, path: &str) -> (r: String)
    ensures
        r@ == spec_edit_error_message(e, path@),
{
    match e {
        EditError::NotFound => {
            let mut m = String::from_str("oldString not found in ");
            m.append(path);
            m.append(". Check text and indentation.");
            m
        },
        EditError::Ambiguous(n) => {
            let mut m = String::from_str("Found ");
            m.append(decimal_string(n as u64).as_str());
            m.append(" matches. Add more context or set replaceAll: true.");
            m
        },
    }
}

/// The undo note that ends a report, when a snapshot was taken.
pub open spec fn undo_note(undo_hash: Option<Seq<char>>) -> Seq<char> {
    match undo_hash {
        Some(h) => "\nUndo hash: "@ + h,
        None => Seq::empty(),
    }
}

pub open spec fn opt_view(o: Option<&str>) -> Option<Seq<char>> {
    match o {
        Some(x) => Some(x@),
        None => None,
    }
}

fn append_undo(m: &mut String, undo_hash: Option<&str>)
    ensures
        final(m)@ == old(m)@ + undo_note(opt_view(undo_hash)),
{
    match undo_hash {
        Some(h) => {
            m.append("\nUndo hash: ");
            m.append(h);
        },
        None => {
            proof {
                assert(old(m)@ + Seq::<char>::empty() =~= old(m)@);
            }
        },
    }
}

/// The report of a done edit.
pub open spec fn spec_edit_report(count: nat, path: Seq<char>, undo_hash: Option<Seq<char>>) -> Seq<char> {
    "Replaced "@ + (if count == 1 {
        "1 occurrence"@
    } else {
        decimal(count) + " occurrences"@
    }) + " in "@ + path + undo_note(undo_hash)
}

pub fn edit_report(count: usize, path: &str, undo_hash: Option<&str>) -> (r: String)
    ensures
        r@ == spec_edit_report(count as nat, path@, opt_view(undo_hash)),
{
    let mut m = String::from_str("Replaced ");
    if count == 1 {
        m.append("1 occurrence");
    } else {
        m.append(decimal_string(count as u64).as_str());
        m.append(" occurrences");
    }
    m.append(" in ");
    m.append(path);
    append_undo(&mut m, undo_hash);
    m
}

/// The report of a done write of `bytes` bytes.
pub open spec fn spec_write_report(bytes: nat, path: Seq<char>, undo_hash: Option<Seq<char>>) -> Seq<char> {
    "Wrote "@ + decimal(bytes) + " bytes to "@ + path + undo_note(undo_hash)
}

pub fn write_report(bytes: usize, path: &str, undo_hash: Option<&str>) -> (r: String)
    ensures
        r@ == spec_write_report(bytes as nat, path@, opt_view(undo_hash)),
{
    let mut m = String::from_str("Wrote ");
    m.append(decimal_string(bytes as u64).as_str());
    m.append(" bytes to ");
    m.append(path);
    append_undo(&mut m, undo_hash);
    m
}

// ---------------------------------------------------------------------------
// Delete
// ---------------------------------------------------------------------------

/// The answer for a target that does not exist: a note with `force`, an
/// error without.
pub fn rm_missing(target: &str, force: bool) -> (r: Result<String, String>)
    ensures
        force ==> (r matches Ok(m) && m@ == target@ + " does not exist (skipped)."@),
        !force ==> (r matches Err(m) && m@ == target@ + ": not found. Use force: true to skip."@),
{
    let mut m = String::from_str(target);
    if force {
        m.append(" does not exist (skipped).");
        Ok(m)
    } else {
        m.append(": not found. Use force: true to skip.");
        Err(m)
    }
}

/// The refusal to delete a directory without `recursive`.
pub fn rm_directory_error(path: &str, recursive: bool) -> (r: Option<String>)
    ensures
        recursive ==> r is None,
        !recursive ==> (r matches Some(m) && m@ == path@
            + " is a directory. Add recursive: true to delete."@),
{
    if recursive {
        return None;
    }
    let mut m = String::from_str(path);
    m.append(" is a directory. Add recursive: true to delete.");
    Some(m)
}

// ---------------------------------------------------------------------------
// Shell output
// ---------------------------------------------------------------------------

/// An integer in decimal with a minus sign when negative.
pub open spec fn signed_decimal(i: int) -> Seq<char> {
    if i < 0 {
        "-"@ + decimal((-i) as nat)
    } else {
        decimal(i as nat)
    }
}

/// What a finished command reports: its output, then its error output
/// after a `[stderr]` line, or its exit code (-1 when it has none) when it
/// printed nothing; trimmed.
pub open spec fn spec_command_output(stdout: Seq<char>, stderr: Seq<char>, code: Option<i32>) -> Seq<char> {
    let a = stdout;
    let b = if stderr.len() > 0 {
        (if a.len() > 0 {
            a + "\n"@
        } else {
            a
        }) + "[stderr]\n"@ + stderr
    } else {
        a
    };
    let c = if b.len() == 0 {
        "exit code "@ + signed_decimal(
            match code {
                Some(x) => x as int,
                None => -1,
            },
        )
    } else {
        b
    };
    trim(c)
}

pub fn command_output(stdout: &str, stderr: &str, code: Option<i32>) -> (r: String)
    ensures
        r@ == spec_command_output(stdout@, stderr@, code),
{
    let mut result = String::from_str(stdout);
    if stderr.unicode_len() > 0 {
        if result.unicode_len() > 0 {
            result.append("\n");
        }
        result.append("[stderr]\n");
        result.append(stderr);
    }
    if result.unicode_len() == 0 {
        let c: i64 = match code {
            Some(x) => x as i64,
            None => -1,
        };
        let ghost ci: int = match code {
            Some(x) => x as int,
            None => -1,
        };
        assert(c as int == ci);
        let mut m = String::from_str("exit code ");
        if c < 0 {
            m.append("-");
            let d = decimal_string((-c) as u64);
            assert(((-c) as u64) as nat == (-ci) as nat);
            m.append(d.as_str());
            assert(m@ =~= "exit code "@ + signed_decimal(ci));
        } else {
            let d = decimal_string(c as u64);
            m.append(d.as_str());
            assert(m@ =~= "exit code "@ + signed_decimal(ci));
        }
        result = m;
    }
    trim_str(result.as_str())
}

// ---------------------------------------------------------------------------
// Answers, sub-agents, skills
// ---------------------------------------------------------------------------

/// One line per question: its header (or `Q` and its number) and the
/// answer given (or `(no answer)`).
pub open spec fn answer_lines(headers: Seq<Seq<char>>, answers: Seq<Seq<char>>) -> Seq<Seq<char>> {
    Seq::new(
        headers.len(),
        |i: int|
            (if headers[i].len() == 0 {
                "Q"@ + decimal((i + 1) as nat)
            } else {
                headers[i]
            }) + ": "@ + (if i < answers.len() {
                answers[i]
            } else {
                "(no answer)"@
            }),
    )
}

/// The tool's reply once the user has answered.
pub fn render_answers(headers: &Vec<String>, answers: &Vec<String>) -> (r: String)
    ensures
        r@ == "User answered:\n"@ + join(answer_lines(views(headers@), views(answers@)), "\n"@),
{
    let mut lines: Vec<String> = Vec::new();
    let mut i: usize = 0;
    while i < headers.len()
        invariant
            i <= headers.len(),
            views(lines@) =~= answer_lines(views(headers@), views(answers@)).take(i as int),
        decreases headers.len() - i,
    {
        let mut line = if headers[i].unicode_len() == 0 {
            let mut q = String::from_str("Q");
            q.append(decimal_string((i + 1) as u64).as_str());
            q
        } else {
            headers[i].clone()
        };
        line.append(": ");
        if i < answers.len() {
            line.append(answers[i].as_str());
        } else {
            line.append("(no answer)");
        }
        let ghost before = views(lines@);
        lines.push(line);
        proof {
            assert(views(lines@) =~= before.push(line@));
        }
        i += 1;
    }
    proof {
        assert(answer_lines(views(headers@), views(answers@)).take(headers.len() as int)
            =~= answer_lines(views(headers@), views(answers@)));
    }
    let body = join_str(&lines, "\n");
    let mut r = String::from_str("User answered:\n");
    r.append(body.as_str());
    r
}

/// The refusal of an unknown sub-agent, naming the known ones.
pub fn unknown_agent_error(subagent_type: &str, available: &Vec<String>) -> (r: String)
    ensures
        r@ == "task: unknown subagent_type '"@ + subagent_type@ + "'. Available: "@ + join(
            views(available@),
            ", "@,
        ),
{
    let mut m = String::from_str("task: unknown subagent_type '");
    m.append(subagent_type);
    m.append("'. Available: ");
    m.append(join_str(available, ", ").as_str());
    m
}

/// What a finished sub-agent hands back: its output, or a note when it
/// wrote nothing but whitespace.
pub open spec fn spec_task_result(subagent_type: Seq<char>, output: Seq<char>) -> Seq<char> {
    if trim(output).len() == 0 {
        "["@ + subagent_type + " sub-agent finished with no textual output]"@
    } else {
        output
    }
}

pub fn task_result(subagent_type: &str, output: String) -> (r: String)
    ensures
        r@ == spec_task_result(subagent_type@, output@),
{
    if trim_str(output.as_str()).unicode_len() == 0 {
        let mut m = String::from_str("[");
        m.append(subagent_type);
        m.append(" sub-agent finished with no textual output]");
        m
    } else {
        output
    }
}

/// A loaded skill's text, with a warning first when its frontmatter had
/// problems.
pub open spec fn spec_skill_content(path: Seq<char>, body: Seq<char>, fm_errors: Seq<char>) -> Seq<char> {
    if fm_errors.len() == 0 {
        body
    } else {
        "[warning: frontmatter issues in "@ + path + ": "@ + fm_errors + "]\n\n"@ + body
    }
}

pub fn skill_content(path: &str, body: String, fm_errors: &str) -> (r: String)
    ensures
        r@ == spec_skill_content(path@, body@, fm_errors@),
{
    if fm_errors.unicode_len() == 0 {
        return body;
    }
    let mut m = String::from_str("[warning: frontmatter issues in ");
    m.append(path);
    m.append(": ");
    m.append(fm_errors);
    m.append("]\n\n");
    m.append(body.as_str());
    m
}

/// The refusal of a skill that is nowhere to be found.
pub open spec fn spec_skill_not_found(name: Seq<char>, available: Seq<Seq<char>>) -> Seq<char> {
    if available.len() == 0 {
        "skill '"@ + name + "' not found; no skills are installed"@
    } else {
        "skill '"@ + name + "' not found. Available skills: "@ + join(available, ", "@)
    }
}

pub fn skill_not_found(name: &str, available: &Vec<String>) -> (r: String)
    ensures
        r@ == spec_skill_not_found(name@, views(available@)),
{
    let mut m = String::from_str("skill '");
    m.append(name);
    if available.len() == 0 {
        m.append("' not found; no skills are installed");
    } else {
        m.append("' not found. Available skills: ");
        m.append(join_str(available, ", ").as_str());
    }
    m
}

} // verus!
