//! Web search result pages (Bing, DuckDuckGo): search URLs and the
//! extraction of titles, URLs and snippets from the returned HTML.

use vstd::prelude::*;
use vstd::string::StringSliceAdditionalSpecFns;
use crate::num::{decimal, decimal_string};
use crate::text::{
    chars_of, join, join_str, lower_string, lowered, vec_eq_str, find, find_exec, find_from, has_at, lemma_find_from, push_char, replace, replace_str, split_once,
    split_pat, split_pat_exec, str_eq, string_of_range, trim, trim_str, views, after_char,
};

verus! {

/// A search backend.
#[derive(Clone, Copy, PartialEq, Eq, Structural, Debug)]
pub enum Engine {
    Bing,
    DuckDuckGo,
}

/// One search result.
pub struct Sr {
    pub title: String,
    pub url: String,
    pub snippet: String,
}

pub struct SpecSr {
    pub title: Seq<char>,
    pub url: Seq<char>,
    pub snippet: Seq<char>,
}

impl View for Sr {
    type V = SpecSr;

    open spec fn view(&self) -> SpecSr {
        SpecSr { title: self.title@, url: self.url@, snippet: self.snippet@ }
    }
}

pub open spec fn srs_view(v: Seq<Sr>) -> Seq<SpecSr> {
    v.map_values(|r: Sr| r@)
}

/// Whether a byte is kept as is by URL encoding.
pub open spec fn url_safe(b: u8) -> bool {
    (48 <= b <= 57) || (65 <= b <= 90) || (97 <= b <= 122) || b == 45 || b == 46 || b == 95 || b
        == 126
}

/// An upper-case hexadecimal digit.
pub open spec fn hex_upper(d: u8) -> char {
    if d < 10 {
        (48 + d) as char
    } else {
        (55 + d) as char
    }
}

/// Percent-encoding of bytes: alphanumerics and `-`, `.`, `_`, `~` kept,
/// every other byte written as `%XX`.
pub open spec fn percent_encode(bytes: Seq<u8>) -> Seq<char>
    decreases bytes.len(),
{
    if bytes.len() == 0 {
        seq![]
    } else {
        let b = bytes[0];
        let head = if url_safe(b) {
            seq![b as char]
        } else {
            seq!['%', hex_upper(b / 16), hex_upper(b % 16)]
        };
        head + percent_encode(bytes.drop_first())
    }
}

/// Percent-encodes the UTF-8 bytes of a query (`urlencoding::encode`).
#[verifier::external_body]
fn url_encode(query: &str) -> (r: String)
    ensures
        r@ == percent_encode(query.spec_bytes()),
{
    urlencoding::encode(query).into_owned()
}

impl Engine {
    pub open spec fn spec_name(self) -> Seq<char> {
        match self {
            Engine::Bing => "bing"@,
            Engine::DuckDuckGo => "duckduckgo"@,
        }
    }

    pub fn name(self) -> (r: &'static str)
        ensures
            r@ == self.spec_name(),
    {
        match self {
            Engine::Bing => "bing",
            Engine::DuckDuckGo => "duckduckgo",
        }
    }

    pub open spec fn spec_url(self, query: &str) -> Seq<char> {
        match self {
            Engine::Bing => "https://www.bing.com/search?q="@ + percent_encode(query.spec_bytes()),
            Engine::DuckDuckGo => "https://html.duckduckgo.com/html/?q="@ + percent_encode(
                query.spec_bytes(),
            ),
        }
    }

    /// The search URL of a query.
    pub fn url(self, query: &str) -> (r: String)
        ensures
            r@ == self.spec_url(query),
    {
        let enc = url_encode(query);
        let mut r = match self {
            Engine::Bing => String::from_str("https://www.bing.com/search?q="),
            Engine::DuckDuckGo => String::from_str("https://html.duckduckgo.com/html/?q="),
        };
        r.append(enc.as_str());
        r
    }

    pub open spec fn spec_parse(self, html: Seq<char>, limit: nat) -> Seq<SpecSr> {
        match self {
            Engine::Bing => spec_parse_bing(html, limit),
            Engine::DuckDuckGo => spec_parse_ddg(html, limit),
        }
    }

    /// The results found in a result page, at most `limit` of them.
    pub fn parse(self, html: &str, limit: usize) -> (r: Vec<Sr>)
        ensures
            srs_view(r@) == self.spec_parse(html@, limit as nat),
    {
        match self {
            Engine::Bing => parse_bing(html, limit),
            Engine::DuckDuckGo => parse_ddg(html, limit),
        }
    }
}

/// The text between the first `start` and the next `end` after it.
pub open spec fn spec_extract(s: Seq<char>, start: Seq<char>, end: Seq<char>) -> Option<Seq<char>> {
    match find(s, start) {
        None => None,
        Some(i) => {
            let after = s.subrange(i + start.len(), s.len() as int);
            match find(after, end) {
                None => None,
                Some(j) => Some(after.subrange(0, j)),
            }
        },
    }
}

pub fn extract(s: &str, start: &str, end: &str) -> (r: Option<String>)
    ensures
        match r {
            Some(x) => spec_extract(s@, start@, end@) == Some(x@),
            None => spec_extract(s@, start@, end@) is None,
        },
{
    let v = chars_of(s);
    let i = match find_exec(&v, start, 0) {
        Some(i) => i,
        None => {
            return None;
        },
    };
    let after = string_of_range(&v, i + start.unicode_len(), v.len());
    let w = chars_of(after.as_str());
    match find_exec(&w, end, 0) {
        Some(j) => Some(string_of_range(&w, 0, j)),
        None => None,
    }
}

/// Characters of `s[i..]` outside `<...>`, `in_tag` telling whether `i` is
/// inside a tag.
pub open spec fn strip_from(s: Seq<char>, i: int, in_tag: bool) -> Seq<char>
    decreases s.len() - i,
{
    if i < 0 || i >= s.len() {
        seq![]
    } else if s[i] == '<' {
        strip_from(s, i + 1, true)
    } else if s[i] == '>' {
        strip_from(s, i + 1, false)
    } else if in_tag {
        strip_from(s, i + 1, in_tag)
    } else {
        seq![s[i]] + strip_from(s, i + 1, in_tag)
    }
}

/// `s` without the `<...>` tags.
pub open spec fn spec_strip_tags(s: Seq<char>) -> Seq<char> {
    strip_from(s, 0, false)
}

pub fn strip_tags(s: &str) -> (r: String)
    ensures
        r@ == spec_strip_tags(s@),
{
    let v = chars_of(s);
    let mut out = String::new();
    let mut in_tag = false;
    let mut i: usize = 0;
    while i < v.len()
        invariant
            v@ == s@,
            i <= v.len(),
            spec_strip_tags(s@) == out@ + strip_from(v@, i as int, in_tag),
        decreases v.len() - i,
    {
        let ch = v[i];
        let ghost o = out@;
        if ch == '<' {
            in_tag = true;
        } else if ch == '>' {
            in_tag = false;
        } else if !in_tag {
            push_char(&mut out, ch);
            proof {
                assert(o + strip_from(v@, i as int, false) =~= out@ + strip_from(v@, i + 1, false));
            }
        }
        i += 1;
    }
    proof {
        assert(out@ + Seq::<char>::empty() =~= out@);
    }
    out
}

/// The five entities of search result pages decoded.
pub open spec fn spec_decode(s: Seq<char>) -> Seq<char> {
    replace(
        replace(replace(replace(replace(s, "&amp;"@, "&"@), "&lt;"@, "<"@), "&gt;"@, ">"@), "&quot;"@, "\""@),
        "&#x27;"@,
        "'"@,
    )
}

pub fn decode(s: &str) -> (r: String)
    ensures
        r@ == spec_decode(s@),
{
    proof {
        reveal_strlit("&amp;");
        reveal_strlit("&lt;");
        reveal_strlit("&gt;");
        reveal_strlit("&quot;");
        reveal_strlit("&#x27;");
    }
    let a = replace_str(s, "&amp;", "&");
    let b = replace_str(a.as_str(), "&lt;", "<");
    let c = replace_str(b.as_str(), "&gt;", ">");
    let d = replace_str(c.as_str(), "&quot;", "\"");
    replace_str(d.as_str(), "&#x27;", "'")
}

/// The text after the attribute head of a fragment: after its first `>`.
pub open spec fn spec_tag_text(raw: Seq<char>) -> Seq<char> {
    match split_once(raw, '>') {
        Some((_, t)) => t,
        None => raw,
    }
}

pub fn tag_text(raw: &str) -> (r: String)
    ensures
        r@ == spec_tag_text(raw@),
{
    match after_char(raw, '>') {
        Some(t) => t,
        None => String::from_str(raw),
    }
}

/// A fragment cleaned for display: tags stripped, trimmed, entities decoded.
pub open spec fn clean(s: Seq<char>) -> Seq<char> {
    spec_decode(trim(spec_strip_tags(s)))
}

fn clean_exec(s: &str) -> (r: String)
    ensures
        r@ == clean(s@),
{
    let a = strip_tags(s);
    let b = trim_str(a.as_str());
    decode(b.as_str())
}

/// The pieces after the first separator, at most `limit` of them.
pub open spec fn result_parts(html: Seq<char>, sep: Seq<char>, limit: nat) -> Seq<Seq<char>> {
    let ps = split_pat(html, sep);
    let n = ps.len() - 1;
    ps.subrange(1, 1 + (if limit < n {
        limit as int
    } else {
        n
    }))
}

/// The result in one DuckDuckGo result block, if it has a title and URL.
pub open spec fn ddg_result(part: Seq<char>) -> Option<SpecSr> {
    let title_raw = match spec_extract(part, "result__a\""@, "</a>"@) {
        Some(x) => spec_tag_text(x),
        None => match spec_extract(part, "result__title\""@, "</a>"@) {
            Some(x) => spec_tag_text(x),
            None => seq![],
        },
    };
    let url_raw = match spec_extract(part, "result__url\""@, "</a>"@) {
        Some(x) => spec_tag_text(x),
        None => match spec_extract(part, "href=\""@, "\""@) {
            Some(x) => x,
            None => seq![],
        },
    };
    let snippet_raw = match spec_extract(part, "result__snippet\""@, "</a>"@) {
        Some(x) => spec_tag_text(x),
        None => match spec_extract(part, "result__snippet\">"@, "</"@) {
            Some(x) => spec_tag_text(x),
            None => seq![],
        },
    };
    let title = clean(title_raw);
    let url = clean(url_raw);
    if title.len() > 0 && url.len() > 0 {
        Some(SpecSr { title, url, snippet: clean(snippet_raw) })
    } else {
        None
    }
}

/// The result in one Bing `b_algo` block, if it has a title and URL.
pub open spec fn bing_result(part: Seq<char>) -> Option<SpecSr> {
    let head = match spec_extract(part, "<h2><a "@, "</a>"@) {
        Some(h) => h,
        None => seq![],
    };
    let url_raw = match spec_extract(head, "href=\""@, "\""@) {
        Some(u) => u,
        None => seq![],
    };
    let title_raw = match split_once(head, '>') {
        Some((_, t)) => t,
        None => seq![],
    };
    let snippet_raw = match spec_extract(part, "<p>"@, "</p>"@) {
        Some(x) => x,
        None => match spec_extract(part, "<p "@, "</p>"@) {
            Some(x) => match split_once(x, '>') {
                Some((_, t)) => t,
                None => seq![],
            },
            None => seq![],
        },
    };
    let title = clean(title_raw);
    let url = spec_decode(trim(url_raw));
    if title.len() > 0 && url.len() > 0 {
        Some(SpecSr { title, url, snippet: clean(snippet_raw) })
    } else {
        None
    }
}

pub open spec fn ddg_results(parts: Seq<Seq<char>>) -> Seq<SpecSr>
    decreases parts.len(),
{
    if parts.len() == 0 {
        seq![]
    } else {
        match ddg_result(parts.last()) {
            Some(r) => ddg_results(parts.drop_last()).push(r),
            None => ddg_results(parts.drop_last()),
        }
    }
}

pub open spec fn bing_results(parts: Seq<Seq<char>>) -> Seq<SpecSr>
    decreases parts.len(),
{
    if parts.len() == 0 {
        seq![]
    } else {
        match bing_result(parts.last()) {
            Some(r) => bing_results(parts.drop_last()).push(r),
            None => bing_results(parts.drop_last()),
        }
    }
}

/// Results of a DuckDuckGo HTML page.
pub open spec fn spec_parse_ddg(html: Seq<char>, limit: nat) -> Seq<SpecSr> {
    ddg_results(result_parts(html, "result__body"@, limit))
}

/// Results of a Bing page.
pub open spec fn spec_parse_bing(html: Seq<char>, limit: nat) -> Seq<SpecSr> {
    bing_results(result_parts(html, "<li class=\"b_algo\""@, limit))
}

fn or_empty(o: Option<String>) -> (r: String)
    ensures
        r@ == match o {
            Some(x) => x@,
            None => Seq::<char>::empty(),
        },
{
    match o {
        Some(x) => x,
        None => String::new(),
    }
}

fn ddg_result_exec(part: &str) -> (r: Option<Sr>)
    ensures
        match r {
            Some(x) => ddg_result(part@) == Some(x@),
            None => ddg_result(part@) is None,
        },
{
    let title_raw = match extract(part, "result__a\"", "</a>") {
        Some(x) => tag_text(x.as_str()),
        None => match extract(part, "result__title\"", "</a>") {
            Some(x) => tag_text(x.as_str()),
            None => String::new(),
        },
    };
    let url_raw = match extract(part, "result__url\"", "</a>") {
        Some(x) => tag_text(x.as_str()),
        None => or_empty(extract(part, "href=\"", "\"")),
    };
    let snippet_raw = match extract(part, "result__snippet\"", "</a>") {
        Some(x) => tag_text(x.as_str()),
        None => match extract(part, "result__snippet\">", "</") {
            Some(x) => tag_text(x.as_str()),
            None => String::new(),
        },
    };
    let title = clean_exec(title_raw.as_str());
    let url = clean_exec(url_raw.as_str());
    let snippet = clean_exec(snippet_raw.as_str());
    if title.as_str().unicode_len() > 0 && url.as_str().unicode_len() > 0 {
        Some(Sr { title, url, snippet })
    } else {
        None
    }
}

fn bing_result_exec(part: &str) -> (r: Option<Sr>)
    ensures
        match r {
            Some(x) => bing_result(part@) == Some(x@),
            None => bing_result(part@) is None,
        },
{
    let head = or_empty(extract(part, "<h2><a ", "</a>"));
    let url_raw = or_empty(extract(head.as_str(), "href=\"", "\""));
    let title_raw = or_empty(after_char(head.as_str(), '>'));
    let snippet_raw = match extract(part, "<p>", "</p>") {
        Some(x) => x,
        None => match extract(part, "<p ", "</p>") {
            Some(x) => or_empty(after_char(x.as_str(), '>')),
            None => String::new(),
        },
    };
    let title = clean_exec(title_raw.as_str());
    let url_t = trim_str(url_raw.as_str());
    let url = decode(url_t.as_str());
    let snippet = clean_exec(snippet_raw.as_str());
    if title.as_str().unicode_len() > 0 && url.as_str().unicode_len() > 0 {
        Some(Sr { title, url, snippet })
    } else {
        None
    }
}

/// The pieces after the first separator, at most `limit` of them.
fn result_parts_exec(html: &str, sep: &str, limit: usize) -> (r: Vec<String>)
    requires
        sep@.len() > 0,
    ensures
        views(r@) == result_parts(html@, sep@, limit as nat),
{
    let ps = split_pat_exec(html, sep);
    let ghost pv = views(ps@);
    assert(pv.len() == ps.len());
    let n = ps.len() - 1;
    let take = if limit < n {
        limit
    } else {
        n
    };
    let mut out: Vec<String> = Vec::new();
    let mut i: usize = 0;
    while i < take
        invariant
            pv == views(ps@),
            pv.len() == ps.len(),
            take <= n,
            n + 1 == ps.len(),
            i <= take,
            views(out@) =~= pv.subrange(1, 1 + i),
        decreases take - i,
    {
        let ghost o = views(out@);
        out.push(ps[i + 1].clone());
        proof {
            assert(views(out@) =~= o.push(pv[i + 1]));
        }
        i += 1;
    }
    out
}

/// Parse DuckDuckGo HTML endpoint results.
pub fn parse_ddg(html: &str, limit: usize) -> (r: Vec<Sr>)
    ensures
        srs_view(r@) == spec_parse_ddg(html@, limit as nat),
{
    proof {
        reveal_strlit("result__body");
    }
    let parts = result_parts_exec(html, "result__body", limit);
    let ghost pv = views(parts@);
    let mut out: Vec<Sr> = Vec::new();
    let mut i: usize = 0;
    while i < parts.len()
        invariant
            pv == views(parts@),
            i <= parts.len(),
            srs_view(out@) =~= ddg_results(pv.take(i as int)),
        decreases parts.len() - i,
    {
        proof {
            assert(pv.take(i + 1).drop_last() =~= pv.take(i as int));
            assert(pv.take(i + 1).last() == parts@[i as int]@);
        }
        match ddg_result_exec(parts[i].as_str()) {
            Some(r) => {
                let ghost o = srs_view(out@);
                let ghost rv = r@;
                out.push(r);
                proof {
                    assert(srs_view(out@) =~= o.push(rv));
                }
            },
            None => {},
        }
        i += 1;
    }
    proof {
        assert(pv.take(parts.len() as int) =~= pv);
    }
    out
}

/// Parse Bing results page: each organic hit is `<li class="b_algo">` with
/// `<h2><a href="URL">TITLE</a></h2>` and a caption `<p>…</p>`.
pub fn parse_bing(html: &str, limit: usize) -> (r: Vec<Sr>)
    ensures
        srs_view(r@) == spec_parse_bing(html@, limit as nat),
{
    proof {
        reveal_strlit("<li class=\"b_algo\"");
    }
    let parts = result_parts_exec(html, "<li class=\"b_algo\"", limit);
    let ghost pv = views(parts@);
    let mut out: Vec<Sr> = Vec::new();
    let mut i: usize = 0;
    while i < parts.len()
        invariant
            pv == views(parts@),
            i <= parts.len(),
            srs_view(out@) =~= bing_results(pv.take(i as int)),
        decreases parts.len() - i,
    {
        proof {
            assert(pv.take(i + 1).drop_last() =~= pv.take(i as int));
            assert(pv.take(i + 1).last() == parts@[i as int]@);
        }
        match bing_result_exec(parts[i].as_str()) {
            Some(r) => {
                let ghost o = srs_view(out@);
                let ghost rv = r@;
                out.push(r);
                proof {
                    assert(srs_view(out@) =~= o.push(rv));
                }
            },
            None => {},
        }
        i += 1;
    }
    proof {
        assert(pv.take(parts.len() as int) =~= pv);
    }
    out
}


// ---------------------------------------------------------------------------
// Running a search
// ---------------------------------------------------------------------------

/// The engines tried for a preference, in order: Bing alone for `bing`,
/// DuckDuckGo alone for `duckduckgo` or `ddg` (in any ASCII letter case),
/// else Bing and then DuckDuckGo.
pub open spec fn spec_engines_for(preferred: Seq<char>) -> Seq<Engine> {
    let l = lowered(preferred);
    if l == "bing"@ {
        seq![Engine::Bing]
    } else if l == "duckduckgo"@ || l == "ddg"@ {
        seq![Engine::DuckDuckGo]
    } else {
        seq![Engine::Bing, Engine::DuckDuckGo]
    }
}

/// The engines tried for a preference (see `spec_engines_for`).
pub fn engines_for(preferred: &str) -> (r: Vec<Engine>)
    ensures
        r@ == spec_engines_for(preferred@),
{
    let l = lower_string(preferred);
    if vec_eq_str(&l, "bing") {
        vec![Engine::Bing]
    } else if vec_eq_str(&l, "duckduckgo") || vec_eq_str(&l, "ddg") {
        vec![Engine::DuckDuckGo]
    } else {
        vec![Engine::Bing, Engine::DuckDuckGo]
    }
}

/// How many results are asked for: the requested number, 10 by default,
/// at most 20.
pub fn search_limit(requested: Option<u64>) -> (r: usize)
    ensures
        r == (match requested {
            Some(n) => if n < 20 { n } else { 20 },
            None => 10,
        }),
{
    match requested {
        Some(n) => if n < 20 { n as usize } else { 20 },
        None => 10,
    }
}

/// Result `i` (counted from one) on three lines: number and title, then
/// the URL and the snippet indented.
pub open spec fn result_entry(i: nat, r: SpecSr) -> Seq<char> {
    decimal(i) + ". "@ + r.title + "\n   "@ + r.url + "\n   "@ + r.snippet
}

/// The entries of the first `k` results.
pub open spec fn result_entries(results: Seq<SpecSr>, k: nat) -> Seq<Seq<char>>
    decreases k,
{
    if k == 0 || k > results.len() {
        seq![]
    } else {
        result_entries(results, (k - 1) as nat).push(result_entry(k, results[k - 1]))
    }
}

/// The text handed back for results: the engine named on the first line,
/// then the numbered entries with a blank line between each two.
pub open spec fn spec_results_text(engine: Engine, results: Seq<SpecSr>) -> Seq<char> {
    "[engine: "@ + engine.spec_name() + "]\n"@ + join(result_entries(results, results.len()), "\n\n"@)
}

/// The text handed back for results (see `spec_results_text`).
pub fn results_text(engine: Engine, results: &Vec<Sr>) -> (r: String)
    requires
        results.len() < u64::MAX,
    ensures
        r@ == spec_results_text(engine, srs_view(results@)),
{
    let ghost rs = srs_view(results@);
    let mut entries: Vec<String> = Vec::new();
    let mut i: usize = 0;
    while i < results.len()
        invariant
            rs == srs_view(results@),
            results.len() < u64::MAX,
            i <= results.len(),
            views(entries@) == result_entries(rs, i as nat),
        decreases results.len() - i,
    {
        let mut e = decimal_string((i + 1) as u64);
        e.append(". ");
        e.append(results[i].title.as_str());
        e.append("\n   ");
        e.append(results[i].url.as_str());
        e.append("\n   ");
        e.append(results[i].snippet.as_str());
        let ghost before = views(entries@);
        entries.push(e);
        proof {
            assert(rs[i as int] == results@[i as int]@);
            assert(views(entries@) =~= before.push(e@));
            assert(e@ =~= result_entry((i + 1) as nat, rs[i as int]));
        }
        i += 1;
    }
    let mut out = String::from_str("[engine: ");
    out.append(engine.name());
    out.append("]\n");
    let body = join_str(&entries, "\n\n");
    out.append(body.as_str());
    out
}

/// Why an engine gave nothing.
pub enum AttemptFailure {
    /// The body could not be read; the error's text.
    ReadFailed(String),
    /// The answer had this non-success status.
    Http(u16),
    /// The request failed; the error's text.
    RequestFailed(String),
    /// The page held no result, often a sign of rate-limiting.
    NoResults,
}

/// The note kept of an engine that gave nothing.
pub open spec fn spec_attempt_note(engine: Engine, failure: AttemptFailure) -> Seq<char> {
    engine.spec_name() + (match failure {
        AttemptFailure::ReadFailed(e) => ": read failed ("@ + e@ + ")"@,
        AttemptFailure::Http(code) => ": HTTP "@ + decimal(code as nat),
        AttemptFailure::RequestFailed(e) => ": request failed ("@ + e@ + ")"@,
        AttemptFailure::NoResults => ": no results (possible rate-limit)"@,
    })
}

/// The note kept of an engine that gave nothing (see `spec_attempt_note`).
pub fn attempt_note(engine: Engine, failure: &AttemptFailure) -> (r: String)
    ensures
        r@ == spec_attempt_note(engine, *failure),
{
    let mut out = String::from_str(engine.name());
    match failure {
        AttemptFailure::ReadFailed(e) => {
            out.append(": read failed (");
            out.append(e.as_str());
            out.append(")");
        },
        AttemptFailure::Http(code) => {
            out.append(": HTTP ");
            let d = decimal_string(*code as u64);
            out.append(d.as_str());
        },
        AttemptFailure::RequestFailed(e) => {
            out.append(": request failed (");
            out.append(e.as_str());
            out.append(")");
        },
        AttemptFailure::NoResults => {
            out.append(": no results (possible rate-limit)");
        },
    }
    out
}

/// The text handed back when every engine gave nothing: the notes of the
/// attempts joined by `; `.
pub fn no_results_text(attempts: &Vec<String>) -> (r: String)
    ensures
        r@ == "No results found for this query. (attempts: "@ + join(views(attempts@), "; "@) + ")"@,
{
    let mut out = String::from_str("No results found for this query. (attempts: ");
    let notes = join_str(attempts, "; ");
    out.append(notes.as_str());
    out.append(")");
    out
}

/// The note of earlier failed engines kept beside results, where there
/// were any: their notes joined by `; `.
pub fn fallback_note(attempts: &Vec<String>) -> (r: Option<String>)
    ensures
        attempts.len() == 0 ==> r is None,
        attempts.len() > 0 ==> (r matches Some(n) && n@ == join(views(attempts@), "; "@)),
{
    if attempts.len() == 0 {
        None
    } else {
        Some(join_str(attempts, "; "))
    }
}

proof fn lemma_find_from_extend(p: Seq<char>, q: Seq<char>, k: Seq<char>, j: int)
    requires
        0 <= j,
        find_from(p, k, j) is Some,
    ensures
        find_from(p + q, k, j) == find_from(p, k, j),
    decreases p.len() + 1 - j,
{
    assert((p + q).subrange(j, j + k.len()) =~= p.subrange(j, j + k.len()));
    if !has_at(p, j, k) {
        lemma_find_from_extend(p, q, k, j + 1);
    }
}

proof fn lemma_find_first(s: Seq<char>, k: Seq<char>, j: int, m: int)
    requires
        0 <= j <= m,
        has_at(s, m, k),
        forall|i: int| j <= i < m ==> !#[trigger] has_at(s, i, k),
    ensures
        find_from(s, k, j) == Some(m),
    decreases m - j,
{
    if j < m {
        lemma_find_first(s, k, j + 1, m);
    }
}

/// No occurrence of `k` starts before `m` when its first character is not
/// in `s[j..m]`.
proof fn lemma_first_char_absent(s: Seq<char>, k: Seq<char>, j: int, m: int)
    requires
        0 <= j <= m,
        k.len() > 0,
        forall|i: int| j <= i < m ==> #[trigger] s[i] != k[0],
    ensures
        forall|i: int| j <= i < m ==> !#[trigger] has_at(s, i, k),
{
    assert forall|i: int| j <= i < m implies !#[trigger] has_at(s, i, k) by {
        if has_at(s, i, k) {
            assert(s.subrange(i, i + k.len())[0] == s[i]);
        }
    }
}

/// The text of the first anchor that follows marker `k`: for a block `pre`,
/// `k`, `attrs`, `>`, `u`, `</a>`, `post`, in which that `k` is the first
/// one, `attrs` holds no `<` or `>` and `u` no `<`, the fragment between `k`
/// and `</a>` is `attrs`, `>`, `u`, and its text is `u`.
proof fn lemma_anchor_text(pre: Seq<char>, k: Seq<char>, attrs: Seq<char>, u: Seq<char>, post: Seq<char>)
    requires
        find(pre + k, k) == Some(pre.len() as int),
        forall|i: int| 0 <= i < attrs.len() ==> #[trigger] attrs[i] != '<' && attrs[i] != '>',
        forall|i: int| 0 <= i < u.len() ==> #[trigger] u[i] != '<',
    ensures
        spec_extract(pre + k + attrs + seq!['>'] + u + "</a>"@ + post, k, "</a>"@) == Some(
            attrs + seq!['>'] + u,
        ),
        spec_tag_text(attrs + seq!['>'] + u) == u,
{
    reveal_strlit("</a>");
    let e = "</a>"@;
    let part = pre + k + attrs + seq!['>'] + u + e + post;
    let head = pre + k;
    let rest = attrs + seq!['>'] + u + e + post;
    assert(part =~= head + rest);
    lemma_find_from_extend(head, rest, k, 0);
    assert(part.subrange((pre.len() + k.len()) as int, part.len() as int) =~= rest);
    let a = attrs.len() as int;
    let m = a + 1 + u.len();
    assert(rest.subrange(m, m + 4) =~= e);
    assert forall|i: int| 0 <= i < m implies #[trigger] rest[i] != e[0] by {
        if i < a {
            assert(rest[i] == attrs[i]);
        } else if i == a {
            assert(rest[i] == '>');
        } else {
            assert(rest[i] == u[i - a - 1]);
        }
    }
    lemma_first_char_absent(rest, e, 0, m);
    lemma_find_first(rest, e, 0, m);
    let x = rest.subrange(0, m);
    assert(x =~= attrs + seq!['>'] + u);
    assert forall|i: int| 0 <= i < a implies #[trigger] x[i] != seq!['>'][0] by {
        assert(x[i] == attrs[i]);
    }
    lemma_first_char_absent(x, seq!['>'], 0, a);
    assert(x.subrange(a, a + 1) =~= seq!['>']);
    lemma_find_first(x, seq!['>'], 0, a);
    assert(x.subrange(a + 1, x.len() as int) =~= u);
}

/// A DuckDuckGo result's URL is the text of its first `result__url` anchor,
/// cleaned for display, and not that of the title anchor: for a block
/// `pre`, `result__url"`, `attrs`, `>`, `u`, `</a>`, `post`, in which that
/// `result__url"` is the first one, `attrs` holds no `<` or `>` and `u` no
/// `<`, the URL of the parsed result is `clean(u)`.
pub proof fn lemma_ddg_url_from_url_anchor(pre: Seq<char>, attrs: Seq<char>, u: Seq<char>, post: Seq<char>)
    requires
        find(pre + "result__url\""@, "result__url\""@) == Some(pre.len() as int),
        forall|i: int| 0 <= i < attrs.len() ==> #[trigger] attrs[i] != '<' && attrs[i] != '>',
        forall|i: int| 0 <= i < u.len() ==> #[trigger] u[i] != '<',
    ensures
        ddg_result(pre + "result__url\""@ + attrs + seq!['>'] + u + "</a>"@ + post) matches Some(r)
            ==> r.url == clean(u),
{
    lemma_anchor_text(pre, "result__url\""@, attrs, u, post);
}

/// A DuckDuckGo result's title is the text of its first `result__a` anchor,
/// cleaned for display: for a block `pre`, `result__a"`, `attrs`, `>`, `t`,
/// `</a>`, `post`, in which that `result__a"` is the first one, `attrs`
/// holds no `<` or `>` and `t` no `<`, the title of the parsed result is
/// `clean(t)`.
pub proof fn lemma_ddg_title_from_title_anchor(pre: Seq<char>, attrs: Seq<char>, t: Seq<char>, post: Seq<char>)
    requires
        find(pre + "result__a\""@, "result__a\""@) == Some(pre.len() as int),
        forall|i: int| 0 <= i < attrs.len() ==> #[trigger] attrs[i] != '<' && attrs[i] != '>',
        forall|i: int| 0 <= i < t.len() ==> #[trigger] t[i] != '<',
    ensures
        ddg_result(pre + "result__a\""@ + attrs + seq!['>'] + t + "</a>"@ + post) matches Some(r)
            ==> r.title == clean(t),
{
    lemma_anchor_text(pre, "result__a\""@, attrs, t, post);
}

/// A DuckDuckGo result's snippet is the text of its first `result__snippet`
/// anchor, cleaned for display: for a block `pre`, `result__snippet"`,
/// `attrs`, `>`, `t`, `</a>`, `post`, in which that `result__snippet"` is the
/// first one, `attrs` holds no `<` or `>` and `t` no `<`, the snippet of the
/// parsed result is `clean(t)`.
pub proof fn lemma_ddg_snippet_from_snippet_anchor(
    pre: Seq<char>,
    attrs: Seq<char>,
    t: Seq<char>,
    post: Seq<char>,
)
    requires
        find(pre + "result__snippet\""@, "result__snippet\""@) == Some(pre.len() as int),
        forall|i: int| 0 <= i < attrs.len() ==> #[trigger] attrs[i] != '<' && attrs[i] != '>',
        forall|i: int| 0 <= i < t.len() ==> #[trigger] t[i] != '<',
    ensures
        ddg_result(pre + "result__snippet\""@ + attrs + seq!['>'] + t + "</a>"@ + post) matches Some(
            r,
        ) ==> r.snippet == clean(t),
{
    lemma_anchor_text(pre, "result__snippet\""@, attrs, t, post);
}

} // verus!
