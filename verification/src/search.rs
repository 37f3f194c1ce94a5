//! Searching files: which files a filter admits, which lines a pattern
//! finds, and how matches and found paths are reported.

use vstd::prelude::*;
use vstd::utf8::encode_utf8;
use crate::num::{decimal, decimal_string};
use crate::read::{code_le, sort_entries};
use crate::text::{
    chars_of, ends_with, ends_with_str, join, join_str, lemma_encode_char, lemma_encode_concat,
    lines, lines_of, push_char, starts_with, starts_with_str, str_eq, strip_prefix,
    split_on, split_str, string_of_range, strip_prefix_str, utf8_width_exec, views,
};

verus! {

#[verifier::external_type_specification]
#[verifier::external_body]
pub struct ExRegex(regex::Regex);

#[verifier::external_type_specification]
#[verifier::external_body]
pub struct ExPattern(glob::Pattern);

// ---------------------------------------------------------------------------
// Patterns of outside crates
// ---------------------------------------------------------------------------

/// What `regex::Regex::new` says of a pattern: none when it compiles,
/// else the text of its error.
pub uninterp spec fn regex_error(pattern: Seq<char>) -> Option<Seq<char>>;

/// Whether the regular expression `pattern` matches somewhere in `text`
/// (`regex::Regex::is_match`).
pub uninterp spec fn regex_matches(pattern: Seq<char>, text: Seq<char>) -> bool;

/// A compiled regular expression and the pattern it was compiled from.
pub struct Matcher {
    re: regex::Regex,
    source: Ghost<Seq<char>>,
}

impl Matcher {
    pub closed spec fn pattern(&self) -> Seq<char> {
        self.source@
    }

    /// Compiles a pattern with `regex::Regex::new`; an error is turned into
    /// its message. The contract names the outcome and the error's text.
    #[verifier::external_body]
    pub fn new(pattern: &str) -> (r: Result<Matcher, String>)
        ensures
            match r {
                Ok(m) => m.pattern() == pattern@ && regex_error(pattern@) is None,
                Err(e) => regex_error(pattern@) == Some(e@),
            },
    {
        match regex::Regex::new(pattern) {
            Ok(re) => Ok(Matcher { re, source: Ghost(pattern@) }),
            Err(e) => Err(e.to_string()),
        }
    }

    /// Whether the pattern matches somewhere in `text`, by
    /// `regex::Regex::is_match`.
    #[verifier::external_body]
    pub fn is_match(&self, text: &str) -> (r: bool)
        ensures
            r == regex_matches(self.pattern(), text@),
    {
        self.re.is_match(text)
    }
}

/// Whether `glob::Pattern::new` accepts a pattern.
pub uninterp spec fn glob_valid(pattern: Seq<char>) -> bool;

/// Whether the shell-style `pattern` matches all of `name`
/// (`glob::Pattern::matches`).
pub uninterp spec fn glob_matches(pattern: Seq<char>, name: Seq<char>) -> bool;

/// A compiled shell-style pattern and its text.
pub struct GlobPattern {
    pat: glob::Pattern,
    source: Ghost<Seq<char>>,
}

impl GlobPattern {
    pub closed spec fn pattern(&self) -> Seq<char> {
        self.source@
    }

    /// Compiles a pattern with `glob::Pattern::new`; none when it is not a
    /// valid pattern.
    #[verifier::external_body]
    pub fn new(pattern: &str) -> (r: Option<GlobPattern>)
        ensures
            r is Some <==> glob_valid(pattern@),
            r matches Some(g) ==> g.pattern() == pattern@,
    {
        match glob::Pattern::new(pattern) {
            Ok(pat) => Some(GlobPattern { pat, source: Ghost(pattern@) }),
            Err(_) => None,
        }
    }

    /// Whether the pattern matches all of `name`, by
    /// `glob::Pattern::matches`.
    #[verifier::external_body]
    pub fn matches(&self, name: &str) -> (r: bool)
        ensures
            r == glob_matches(self.pattern(), name@),
    {
        self.pat.matches(name)
    }
}

// ---------------------------------------------------------------------------
// Which files
// ---------------------------------------------------------------------------

/// The endings an `*.ext` filter asks for: the comma-separated
/// alternatives of a braced list `{a,b,...}`, else `ext` itself.
pub open spec fn ext_alternatives(ext: Seq<char>) -> Seq<Seq<char>> {
    if ext.len() >= 2 && ext[0] == '{' && ext[ext.len() - 1] == '}' {
        split_on(ext.subrange(1, ext.len() - 1), ',')
    } else {
        seq![ext]
    }
}

/// Whether `name` ends in `.` and one of `alts`.
pub open spec fn ends_with_any(name: Seq<char>, alts: Seq<Seq<char>>) -> bool {
    exists|i: int| 0 <= i < alts.len() && ends_with(name, "."@ + #[trigger] alts[i])
}

/// Whether a file name passes an `include` filter: `*` and `*.*` pass
/// everything, `*.ext` (after an optional `./`) asks for the ending
/// `.ext`, and `*.{a,b}` for the ending `.a` or `.b`; anything else is a
/// shell pattern, and an invalid one passes nothing.
pub open spec fn spec_match_ext(pattern: Seq<char>, name: Seq<char>) -> bool {
    if pattern == "*"@ || pattern == "*.*"@ {
        true
    } else {
        let pat = match strip_prefix(pattern, "./"@) {
            Some(p) => p,
            None => pattern,
        };
        match strip_prefix(pat, "*."@) {
            Some(ext) => ends_with_any(name, ext_alternatives(ext)),
            None => glob_valid(pat) && glob_matches(pat, name),
        }
    }
}

fn ext_list(ext: &str) -> (r: Vec<String>)
    ensures
        views(r@) == ext_alternatives(ext@),
{
    let v = chars_of(ext);
    let n = v.len();
    if n >= 2 && v[0] == '{' && v[n - 1] == '}' {
        let inner = string_of_range(&v, 1, n - 1);
        split_str(inner.as_str(), ',')
    } else {
        let mut r: Vec<String> = Vec::new();
        r.push(String::from_str(ext));
        proof {
            assert(views(r@) =~= seq![ext@]);
        }
        r
    }
}

fn ends_with_one_of(name: &str, alts: &Vec<String>) -> (r: bool)
    ensures
        r == ends_with_any(name@, views(alts@)),
{
    let ghost av = views(alts@);
    let mut i: usize = 0;
    while i < alts.len()
        invariant
            av == views(alts@),
            av.len() == alts.len(),
            i <= alts.len(),
            forall|j: int| 0 <= j < i ==> !ends_with(name@, "."@ + #[trigger] av[j]),
        decreases alts.len() - i,
    {
        let mut suffix = String::from_str(".");
        suffix.append(alts[i].as_str());
        proof {
            assert(av[i as int] == alts@[i as int]@);
        }
        if ends_with_str(name, suffix.as_str()) {
            return true;
        }
        i += 1;
    }
    false
}

pub fn match_ext(pattern: &str, name: &str) -> (r: bool)
    ensures
        r == spec_match_ext(pattern@, name@),
{
    if str_eq(pattern, "*") || str_eq(pattern, "*.*") {
        return true;
    }
    let pat = match strip_prefix_str(pattern, "./") {
        Some(p) => p,
        None => String::from_str(pattern),
    };
    match strip_prefix_str(pat.as_str(), "*.") {
        Some(ext) => {
            let alts = ext_list(ext.as_str());
            ends_with_one_of(name, &alts)
        },
        None => match GlobPattern::new(pat.as_str()) {
            Some(g) => g.matches(name),
            None => false,
        },
    }
}

/// Whether the directory walk goes into or lists an entry: no hidden
/// names, no build output, no dependencies.
pub open spec fn spec_walk_keeps(name: Seq<char>) -> bool {
    !starts_with(name, "."@) && name != "target"@ && name != "node_modules"@
}

pub fn walk_keeps(name: &str) -> (r: bool)
    ensures
        r == spec_walk_keeps(name@),
{
    !starts_with_str(name, ".") && !str_eq(name, "target") && !str_eq(name, "node_modules")
}

// ---------------------------------------------------------------------------
// Reporting matches
// ---------------------------------------------------------------------------

/// The number of leading characters of `s` whose UTF-8 form fits in `n`
/// bytes, counted from `k` on.
pub open spec fn fit_from(s: Seq<char>, n: nat, k: int) -> int
    decreases s.len() - k,
{
    if k < 0 || k >= s.len() || encode_utf8(s.take(k + 1)).len() > n {
        k
    } else {
        fit_from(s, n, k + 1)
    }
}

/// A matching line as shown: cut to its first 200 bytes (at a character
/// boundary) and an ellipsis when it is longer.
pub open spec fn spec_display_line(line: Seq<char>) -> Seq<char> {
    if encode_utf8(line).len() > 200 {
        line.take(fit_from(line, 200, 0)) + "..."@
    } else {
        line
    }
}

/// A match as reported: the file, the line's number, and the line.
pub open spec fn spec_match_line(path: Seq<char>, number: nat, line: Seq<char>) -> Seq<char> {
    path + ":"@ + decimal(number) + ": "@ + spec_display_line(line)
}

proof fn lemma_encode_prefix(s: Seq<char>, k: int)
    requires
        0 <= k < s.len(),
    ensures
        encode_utf8(s.take(k + 1)).len() == encode_utf8(s.take(k)).len() + crate::text::utf8_width(
            s[k],
        ),
        encode_utf8(s.take(k + 1)).len() <= encode_utf8(s).len(),
{
    assert(s.take(k + 1) =~= s.take(k) + seq![s[k]]);
    lemma_encode_concat(s.take(k), seq![s[k]]);
    lemma_encode_char(s[k]);
    assert(s =~= s.take(k + 1) + s.skip(k + 1));
    lemma_encode_concat(s.take(k + 1), s.skip(k + 1));
}

fn display_line(line: &str) -> (r: String)
    ensures
        r@ == spec_display_line(line@),
{
    let v = chars_of(line);
    let mut bytes: usize = 0;
    let mut k: usize = 0;
    proof {
        assert(v@.take(0) =~= Seq::<char>::empty());
    }
    while k < v.len() && utf8_width_exec(v[k]) <= 200 - bytes
        invariant
            v@ == line@,
            k <= v.len(),
            bytes <= 200,
            bytes == encode_utf8(v@.take(k as int)).len(),
            fit_from(v@, 200, 0) == fit_from(v@, 200, k as int),
        decreases v.len() - k,
    {
        proof {
            lemma_encode_prefix(v@, k as int);
        }
        bytes = bytes + utf8_width_exec(v[k]);
        k += 1;
    }
    proof {
        if k < v.len() {
            lemma_encode_prefix(v@, k as int);
        }
    }
    if k == v.len() {
        proof {
            assert(v@.take(k as int) =~= v@);
        }
        return String::from_str(line);
    }
    proof {
        lemma_encode_prefix(v@, k as int);
    }
    let mut s = crate::text::string_of_range(&v, 0, k);
    s.append("...");
    s
}

/// The report of one match (see `spec_match_line`).
pub fn match_line(path: &str, number: usize, line: &str) -> (r: String)
    ensures
        r@ == spec_match_line(path@, number as nat, line@),
{
    let mut m = String::from_str(path);
    m.append(":");
    m.append(decimal_string(number as u64).as_str());
    m.append(": ");
    m.append(display_line(line).as_str());
    m
}

/// The reports of the lines of a file that the pattern matches, in order,
/// numbered from 1.
pub open spec fn spec_file_matches(path: Seq<char>, pattern: Seq<char>, ls: Seq<Seq<char>>, k: int) -> Seq<Seq<char>>
    decreases k,
{
    if k <= 0 || k > ls.len() {
        seq![]
    } else {
        let r = spec_file_matches(path, pattern, ls, k - 1);
        if regex_matches(pattern, ls[k - 1]) {
            r.push(spec_match_line(path, k as nat, ls[k - 1]))
        } else {
            r
        }
    }
}

/// The matches of a file's text (see `spec_file_matches`).
pub fn search_text(path: &str, content: &str, m: &Matcher) -> (r: Vec<String>)
    ensures
        views(r@) == spec_file_matches(
            path@,
            m.pattern(),
            lines(content@),
            lines(content@).len() as int,
        ),
{
    let ls = lines_of(content);
    let ghost lv = views(ls@);
    let mut out: Vec<String> = Vec::new();
    let mut i: usize = 0;
    while i < ls.len()
        invariant
            lv == views(ls@),
            lv == lines(content@),
            i <= ls.len(),
            views(out@) == spec_file_matches(path@, m.pattern(), lv, i as int),
        decreases ls.len() - i,
    {
        proof {
            assert(lv[i as int] == ls@[i as int]@);
        }
        if m.is_match(ls[i].as_str()) {
            let ghost before = views(out@);
            let line = match_line(path, i + 1, ls[i].as_str());
            out.push(line);
            proof {
                assert(views(out@) =~= before.push(line@));
            }
        }
        i += 1;
    }
    out
}

/// The search tool's reply: the matches one per line, at most 200 and a
/// note of how many more, or a note that nothing matched.
pub open spec fn spec_search_report(results: Seq<Seq<char>>) -> Seq<char> {
    if results.len() == 0 {
        "No matches found."@
    } else if results.len() > 200 {
        join(results.take(200).push("... and "@ + decimal((results.len() - 200) as nat) + " more"@), "\n"@)
    } else {
        join(results, "\n"@)
    }
}

pub fn search_report(results: Vec<String>) -> (r: String)
    ensures
        r@ == spec_search_report(views(results@)),
{
    let n = results.len();
    if n == 0 {
        return String::from_str("No matches found.");
    }
    if n > 200 {
        let mut kept: Vec<String> = Vec::new();
        let mut i: usize = 0;
        while i < 200
            invariant
                i <= 200,
                n == results.len(),
                n > 200,
                views(kept@) =~= views(results@).take(i as int),
            decreases 200 - i,
        {
            let ghost before = views(kept@);
            let x = results[i].clone();
            kept.push(x);
            proof {
                assert(views(kept@) =~= before.push(x@));
            }
            i += 1;
        }
        let mut note = String::from_str("... and ");
        note.append(decimal_string((n - 200) as u64).as_str());
        note.append(" more");
        let ghost before = views(kept@);
        kept.push(note);
        proof {
            assert(views(kept@) =~= before.push(note@));
        }
        return join_str(&kept, "\n");
    }
    join_str(&results, "\n")
}

/// The file-pattern tool's reply: the found paths in order, at most 500
/// and a note of how many more, or a note that nothing matched.
pub open spec fn spec_glob_report(sorted: Seq<Seq<char>>) -> Seq<char> {
    if sorted.len() == 0 {
        "No files matched."@
    } else if sorted.len() > 500 {
        join(sorted.take(500), "\n"@) + "\n... and "@ + decimal((sorted.len() - 500) as nat)
            + " more"@
    } else {
        join(sorted, "\n"@)
    }
}

/// The paths found, sorted in code point order, reported (see
/// `spec_glob_report`).
pub fn glob_report(paths: Vec<String>) -> (r: String)
    ensures
        r@ == spec_glob_report(views(paths@).sort_by(code_le())),
{
    let sorted = sort_entries(paths);
    let n = sorted.len();
    if n == 0 {
        return String::from_str("No files matched.");
    }
    if n > 500 {
        let mut kept: Vec<String> = Vec::new();
        let mut i: usize = 0;
        while i < 500
            invariant
                i <= 500,
                n == sorted.len(),
                n > 500,
                views(kept@) =~= views(sorted@).take(i as int),
            decreases 500 - i,
        {
            let ghost before = views(kept@);
            let x = sorted[i].clone();
            kept.push(x);
            proof {
                assert(views(kept@) =~= before.push(x@));
            }
            i += 1;
        }
        let mut out = join_str(&kept, "\n");
        out.append("\n... and ");
        out.append(decimal_string((n - 500) as u64).as_str());
        out.append(" more");
        return out;
    }
    join_str(&sorted, "\n")
}

} // verus!
