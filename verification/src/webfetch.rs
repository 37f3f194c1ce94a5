//! Fetching web pages: which URLs may be fetched, how a response is
//! judged, and how an HTML body becomes the text handed back.

use vstd::prelude::*;
use vstd::string::StringSliceAdditionalSpecFns;
use vstd::utf8::{decode_utf8, encode_utf8};
use crate::html::{numeric_entity, numeric_entity_exec};
use crate::num::{decimal, decimal_string};
use crate::text::{
    chars_of, lower_string, lowered, vec_eq_str, find_exec, find_from, has_at, has_at_exec, join,
    join_str, lemma_find_from, lines, lines_of, push_char, starts_with, starts_with_str, str_eq,
    trim, trim_str, views,
};
use crate::tool::{boundary_floor, truncate_str};

verus! {

// ---------------------------------------------------------------------------
// URL screening
// ---------------------------------------------------------------------------

/// What the screening reads of a parsed URL: its scheme and its host.
pub struct ParsedUrl {
    pub scheme: String,
    pub host: Option<String>,
}

/// A parse outcome by its views: scheme and host, or the error's text.
pub open spec fn parsed_view(p: Result<ParsedUrl, String>) -> Result<(Seq<char>, Option<Seq<char>>), Seq<char>> {
    match p {
        Ok(u) => Ok((u.scheme@, match u.host {
            Some(h) => Some(h@),
            None => None,
        })),
        Err(e) => Err(e@),
    }
}

/// What `url::Url::parse` makes of a string: the scheme and host of the
/// URL, or the text of the parse error.
pub uninterp spec fn url_parse(input: Seq<char>) -> Result<(Seq<char>, Option<Seq<char>>), Seq<char>>;

/// Parses a URL with `url::Url::parse` and reads `scheme()` and
/// `host_str()`; an error is turned into its message. The contract names
/// the outcome and says nothing of its content.
#[verifier::external_body]
fn parse_url(input: &str) -> (r: Result<ParsedUrl, String>)
    ensures
        parsed_view(r) == url_parse(input@),
{
    match url::Url::parse(input) {
        Ok(u) => Ok(ParsedUrl { scheme: u.scheme().to_string(), host: u.host_str().map(|h| h.to_string()) }),
        Err(e) => Err(e.to_string()),
    }
}

/// Whether `h` names the private range 172.16.0.0/12 by its first octets.
pub open spec fn in_172_private(h: Seq<char>) -> bool {
    &&& h.len() >= 7
    &&& h.subrange(0, 4) == "172."@
    &&& h[6] == '.'
    &&& {
        ||| (h[4] == '1' && '6' <= h[5] && h[5] <= '9')
        ||| (h[4] == '2' && '0' <= h[5] && h[5] <= '9')
        ||| (h[4] == '3' && (h[5] == '0' || h[5] == '1'))
    }
}

/// Whether a lowered host is a loopback, link-local or private address.
pub open spec fn is_private_host(h: Seq<char>) -> bool {
    ||| h == "localhost"@
    ||| h == "127.0.0.1"@
    ||| h == "[::1]"@
    ||| h == "0.0.0.0"@
    ||| starts_with(h, "192.168."@)
    ||| starts_with(h, "10."@)
    ||| starts_with(h, "169.254."@)
    ||| in_172_private(h)
}

/// The verdict on a parsed URL: only http and https, and no internal host.
pub open spec fn spec_check_url(p: Result<(Seq<char>, Option<Seq<char>>), Seq<char>>) -> Result<(), Seq<char>> {
    match p {
        Err(e) => Err("Invalid URL: "@ + e),
        Ok((scheme, host)) => if scheme != "http"@ && scheme != "https"@ {
            Err("Unsupported URL scheme '"@ + scheme + "'. Only http/https allowed."@)
        } else {
            match host {
                Some(h) => if is_private_host(lowered(h)) {
                    Err("Internal/private address '"@ + h + "' is not allowed."@)
                } else {
                    Ok(())
                },
                None => Ok(()),
            }
        },
    }
}

pub open spec fn result_view(r: Result<(), String>) -> Result<(), Seq<char>> {
    match r {
        Ok(()) => Ok(()),
        Err(e) => Err(e@),
    }
}

fn in_172_private_exec(h: &Vec<char>) -> (r: bool)
    ensures
        r == in_172_private(h@),
{
    if h.len() < 7 || !has_at_exec(h, 0, "172.") || h[6] != '.' {
        return false;
    }
    proof {
        reveal_strlit("172.");
    }
    let a = h[4];
    let b = h[5];
    (a == '1' && '6' <= b && b <= '9') || (a == '2' && '0' <= b && b <= '9') || (a == '3' && (b
        == '0' || b == '1'))
}

fn is_private_host_exec(h: &Vec<char>) -> (r: bool)
    ensures
        r == is_private_host(h@),
{
    vec_eq_str(h, "localhost") || vec_eq_str(h, "127.0.0.1") || vec_eq_str(h, "[::1]")
        || vec_eq_str(h, "0.0.0.0") || has_at_exec(
        h,
        0,
        "192.168.",
    ) || has_at_exec(h, 0, "10.") || has_at_exec(h, 0, "169.254.") || in_172_private_exec(h)
}

/// The verdict on a parse outcome (see `spec_check_url`).
pub fn check_parsed_url(parsed: Result<ParsedUrl, String>) -> (r: Result<(), String>)
    ensures
        result_view(r) == spec_check_url(parsed_view(parsed)),
{
    match parsed {
        Err(e) => {
            let mut m = String::from_str("Invalid URL: ");
            m.append(e.as_str());
            Err(m)
        },
        Ok(u) => {
            if !str_eq(u.scheme.as_str(), "http") && !str_eq(u.scheme.as_str(), "https") {
                let mut m = String::from_str("Unsupported URL scheme '");
                m.append(u.scheme.as_str());
                m.append("'. Only http/https allowed.");
                return Err(m);
            }
            match u.host {
                Some(h) => {
                    let low = lower_string(h.as_str());
                    if is_private_host_exec(&low) {
                        let mut m = String::from_str("Internal/private address '");
                        m.append(h.as_str());
                        m.append("' is not allowed.");
                        Err(m)
                    } else {
                        Ok(())
                    }
                },
                None => Ok(()),
            }
        },
    }
}

/// Whether a URL may be fetched: it parses, its scheme is http or https,
/// and its host is not a loopback or private address.
pub fn validate_url(url_str: &str) -> (r: Result<(), String>)
    ensures
        result_view(r) == spec_check_url(url_parse(url_str@)),
{
    let parsed = parse_url(url_str);
    check_parsed_url(parsed)
}

// ---------------------------------------------------------------------------
// Judging a response
// ---------------------------------------------------------------------------

/// The fetch timeout in seconds: the requested one, 30 by default, at most 120.
pub fn fetch_timeout(requested: Option<u64>) -> (r: u64)
    ensures
        r == (match requested {
            Some(t) => if t < 120 { t } else { 120 },
            None => 30,
        }),
{
    let t = match requested {
        Some(t) => t,
        None => 30,
    };
    if t < 120 { t } else { 120 }
}

/// The `Accept` header sent for an output format.
pub open spec fn spec_accept_for(format: Seq<char>) -> Seq<char> {
    if format == "markdown"@ {
        "text/markdown;q=1.0, text/x-markdown;q=0.9, text/plain;q=0.8, text/html;q=0.7, */*;q=0.1"@
    } else if format == "text"@ {
        "text/plain;q=1.0, text/markdown;q=0.9, text/html;q=0.8, */*;q=0.1"@
    } else if format == "html"@ {
        "text/html;q=1.0, application/xhtml+xml;q=0.9, text/plain;q=0.8, text/markdown;q=0.7, */*;q=0.1"@
    } else {
        "*/*"@
    }
}

pub fn accept_for_format(format: &str) -> (r: &'static str)
    ensures
        r@ == spec_accept_for(format@),
{
    if str_eq(format, "markdown") {
        "text/markdown;q=1.0, text/x-markdown;q=0.9, text/plain;q=0.8, text/html;q=0.7, */*;q=0.1"
    } else if str_eq(format, "text") {
        "text/plain;q=1.0, text/markdown;q=0.9, text/html;q=0.8, */*;q=0.1"
    } else if str_eq(format, "html") {
        "text/html;q=1.0, application/xhtml+xml;q=0.9, text/plain;q=0.8, text/markdown;q=0.7, */*;q=0.1"
    } else {
        "*/*"
    }
}

/// Cloudflare's bot check answers 403 with `cf-mitigated: challenge`.
pub fn is_cloudflare_challenge(status: u16, cf_mitigated: Option<&str>) -> (r: bool)
    ensures
        r == (status == 403 && (match cf_mitigated {
            Some(v) => v@ == "challenge"@,
            None => false,
        })),
{
    status == 403 && match cf_mitigated {
        Some(v) => str_eq(v, "challenge"),
        None => false,
    }
}

/// The error for a response status, if it is not a success: a redirect is
/// refused, a Cloudflare challenge is named, anything else gives its code.
pub open spec fn spec_status_error(url: Seq<char>, status: u16, location: Option<Seq<char>>, challenged: bool) -> Option<Seq<char>> {
    if 300 <= status && status <= 399 {
        Some("Redirect not followed (SSRF protection): "@ + url + " → "@ + (match location {
            Some(l) => l,
            None => "?"@,
        }) + ". Use the direct URL if trusted."@)
    } else if !(200 <= status && status <= 299) {
        if challenged {
            Some("Blocked by Cloudflare bot detection: "@ + url + ". Try a different source."@)
        } else {
            Some("HTTP "@ + decimal(status as nat) + " fetching "@ + url)
        }
    } else {
        None
    }
}

pub open spec fn opt_str_view(o: Option<&str>) -> Option<Seq<char>> {
    match o {
        Some(x) => Some(x@),
        None => None,
    }
}

pub fn status_error(url: &str, status: u16, location: Option<&str>, challenged: bool) -> (r: Option<String>)
    ensures
        r matches Some(m) ==> spec_status_error(url@, status, opt_str_view(location), challenged) == Some(m@),
        r is None ==> spec_status_error(url@, status, opt_str_view(location), challenged) is None,
{
    if 300 <= status && status <= 399 {
        let mut m = String::from_str("Redirect not followed (SSRF protection): ");
        m.append(url);
        m.append(" → ");
        match location {
            Some(l) => m.append(l),
            None => m.append("?"),
        }
        m.append(". Use the direct URL if trusted.");
        Some(m)
    } else if !(200 <= status && status <= 299) {
        if challenged {
            let mut m = String::from_str("Blocked by Cloudflare bot detection: ");
            m.append(url);
            m.append(". Try a different source.");
            Some(m)
        } else {
            let mut m = String::from_str("HTTP ");
            let d = decimal_string(status as u64);
            m.append(d.as_str());
            m.append(" fetching ");
            m.append(url);
            Some(m)
        }
    } else {
        None
    }
}

/// Content types taken as text, by prefix of the lowered type.
pub open spec fn spec_is_text_type(content_type: Seq<char>) -> bool {
    let l = lowered(content_type);
    ||| starts_with(l, "text/"@)
    ||| starts_with(l, "application/json"@)
    ||| starts_with(l, "application/xml"@)
    ||| starts_with(l, "application/xhtml"@)
}

pub fn is_text_content_type(content_type: &str) -> (r: bool)
    ensures
        r == spec_is_text_type(content_type@),
{
    let l = lower_string(content_type);
    has_at_exec(&l, 0, "text/") || has_at_exec(&l, 0, "application/json") || has_at_exec(
        &l,
        0,
        "application/xml",
    ) || has_at_exec(&l, 0, "application/xhtml")
}

/// The error for a declared content type that is not text; an absent
/// (empty) type is let through.
pub fn content_type_error(content_type: &str, url: &str) -> (r: Option<String>)
    ensures
        r matches Some(m) ==> content_type@.len() > 0 && !spec_is_text_type(content_type@) && m@
            == "Non-text content type '"@ + content_type@ + "' not supported for "@ + url@
            + ". Use bash with curl for binary downloads."@,
        r is None ==> content_type@.len() == 0 || spec_is_text_type(content_type@),
{
    if content_type.unicode_len() > 0 && !is_text_content_type(content_type) {
        let mut m = String::from_str("Non-text content type '");
        m.append(content_type);
        m.append("' not supported for ");
        m.append(url);
        m.append(". Use bash with curl for binary downloads.");
        Some(m)
    } else {
        None
    }
}

/// The error for a content type (see `content_type_error`).
pub open spec fn spec_content_type_error(content_type: Seq<char>, url: Seq<char>) -> Option<Seq<char>> {
    if content_type.len() > 0 && !spec_is_text_type(content_type) {
        Some("Non-text content type '"@ + content_type + "' not supported for "@ + url
            + ". Use bash with curl for binary downloads."@)
    } else {
        None
    }
}

/// What a fetch does next.
pub enum FetchStep {
    /// Send the request: with the tool's own user agent where
    /// `honest_agent` is set, else with a desktop browser's.
    Send { honest_agent: bool },
    /// Stop with this error.
    Fail(String),
    /// Read the response's body.
    ReadBody,
}

/// The first step of a fetch: a URL that fails the screening (see
/// `validate_url`) stops it, any other is requested as a browser would.
pub fn fetch_start(url: &str) -> (r: FetchStep)
    ensures
        match spec_check_url(url_parse(url@)) {
            Ok(_) => r matches FetchStep::Send { honest_agent: false },
            Err(e) => r matches FetchStep::Fail(m) && m@ == e,
        },
{
    match validate_url(url) {
        Ok(()) => FetchStep::Send { honest_agent: false },
        Err(m) => FetchStep::Fail(m),
    }
}

/// The step after a response with `status`, the `cf-mitigated`, `location`
/// and `content-type` headers (an absent content type given as empty):
/// a first answer that is a Cloudflare challenge is asked again with the
/// tool's own user agent; otherwise a redirect, a failure status or a
/// content type other than text stops the fetch (see `spec_status_error`
/// and `spec_content_type_error`), and else the body is read.
pub fn fetch_on_response(
    url: &str,
    retried: bool,
    status: u16,
    cf_mitigated: Option<&str>,
    location: Option<&str>,
    content_type: &str,
) -> (r: FetchStep)
    ensures
        ({
            let challenged = status == 403 && (match cf_mitigated {
                Some(v) => v@ == "challenge"@,
                None => false,
            });
            if !retried && challenged {
                r matches FetchStep::Send { honest_agent: true }
            } else {
                match spec_status_error(url@, status, opt_str_view(location), challenged) {
                    Some(e) => r matches FetchStep::Fail(m) && m@ == e,
                    None => match spec_content_type_error(content_type@, url@) {
                        Some(e) => r matches FetchStep::Fail(m) && m@ == e,
                        None => r is ReadBody,
                    },
                }
            }
        }),
{
    let challenged = is_cloudflare_challenge(status, cf_mitigated);
    if !retried && challenged {
        return FetchStep::Send { honest_agent: true };
    }
    match status_error(url, status, location, challenged) {
        Some(m) => FetchStep::Fail(m),
        None => match content_type_error(content_type, url) {
            Some(m) => FetchStep::Fail(m),
            None => FetchStep::ReadBody,
        },
    }
}

// ---------------------------------------------------------------------------
// HTML to text
// ---------------------------------------------------------------------------

/// The character an entity at `s[i..]` stands for and the entity's length:
/// the five XML entities, or `&#` and a decimal or `x`-hex code up to the
/// first `;` after it.
pub open spec fn entity_at(s: Seq<char>, i: int) -> Option<(char, int)> {
    if has_at(s, i, "&amp;"@) {
        Some(('&', 5))
    } else if has_at(s, i, "&lt;"@) {
        Some(('<', 4))
    } else if has_at(s, i, "&gt;"@) {
        Some(('>', 4))
    } else if has_at(s, i, "&quot;"@) {
        Some(('"', 6))
    } else if has_at(s, i, "&apos;"@) {
        Some(('\'', 6))
    } else if has_at(s, i, "&#"@) {
        match find_from(s, ";"@, i + 2) {
            None => None,
            Some(end) => match numeric_entity(s.subrange(i + 1, end)) {
                Some(c) => Some((c, end + 1 - i)),
                None => None,
            },
        }
    } else {
        None
    }
}

pub proof fn lemma_entity_len(s: Seq<char>, i: int)
    ensures
        entity_at(s, i) matches Some((_, n)) ==> n >= 1 && i + n <= s.len(),
{
    reveal_strlit("&amp;");
    reveal_strlit("&lt;");
    reveal_strlit("&gt;");
    reveal_strlit("&quot;");
    reveal_strlit("&apos;");
    reveal_strlit("&#");
    reveal_strlit(";");
    if i >= 0 {
        lemma_find_from(s, ";"@, i + 2);
    }
}

fn decode_html_entity(v: &Vec<char>, i: usize) -> (r: Option<(char, usize)>)
    requires
        i < v.len(),
    ensures
        match r {
            Some((c, n)) => entity_at(v@, i as int) == Some((c, n as int)) && n >= 1 && i + n
                <= v.len(),
            None => entity_at(v@, i as int) is None,
        },
{
    proof {
        reveal_strlit("&amp;");
        reveal_strlit("&lt;");
        reveal_strlit("&gt;");
        reveal_strlit("&quot;");
        reveal_strlit("&apos;");
        reveal_strlit("&#");
        reveal_strlit(";");
    }
    if has_at_exec(v, i, "&amp;") {
        return Some(('&', 5));
    }
    if has_at_exec(v, i, "&lt;") {
        return Some(('<', 4));
    }
    if has_at_exec(v, i, "&gt;") {
        return Some(('>', 4));
    }
    if has_at_exec(v, i, "&quot;") {
        return Some(('"', 6));
    }
    if has_at_exec(v, i, "&apos;") {
        return Some(('\'', 6));
    }
    if has_at_exec(v, i, "&#") {
        match find_exec(v, ";", i + 2) {
            None => None,
            Some(end) => {
                proof {
                    lemma_find_from(v@, ";"@, i + 2);
                }
                match numeric_entity_exec(v, i + 1, end) {
                    Some(c) => Some((c, end + 1 - i)),
                    None => None,
                }
            },
        }
    } else {
        None
    }
}

/// Whether `p` occurs within `s[a..b]`.
pub open spec fn occurs_within(s: Seq<char>, a: int, b: int, p: Seq<char>) -> bool {
    exists|k: int| a <= k && k + p.len() <= b && #[trigger] has_at(s, k, p)
}

fn occurs_within_exec(v: &Vec<char>, a: usize, b: usize, p: &str) -> (r: bool)
    requires
        a <= b <= v.len(),
    ensures
        r == occurs_within(v@, a as int, b as int, p@),
{
    let n = p.unicode_len();
    if n == 0 {
        proof {
            assert(has_at(v@, a as int, p@)) by {
                assert(v@.subrange(a as int, a as int) =~= p@);
            }
        }
        return true;
    }
    let mut k = a;
    while k < b && n <= b - k
        invariant
            a <= k <= b,
            b <= v.len(),
            n == p@.len(),
            n > 0,
            forall|j: int| a <= j < k && j + n <= b ==> !has_at(v@, j, p@),
        decreases b + 1 - k,
    {
        if has_at_exec(v, k, p) {
            return true;
        }
        k += 1;
    }
    false
}

/// Whether the ten characters before a `>` at `i`, with it, close a block:
/// a `</p`, `</div`, `</h` or `<br` among them.
pub open spec fn closes_block(l: Seq<char>, i: int) -> bool {
    let a = if i >= 10 { i - 10 } else { 0 };
    ||| occurs_within(l, a, i + 1, "</p"@)
    ||| occurs_within(l, a, i + 1, "</div"@)
    ||| occurs_within(l, a, i + 1, "</h"@)
    ||| occurs_within(l, a, i + 1, "<br"@)
}

/// The text of `s` from `i` on, appended to `out`, given whether a tag, a
/// script or a style is open. Tags are dropped, script and style contents
/// with them; a `>` that closes a block starts a new line; entities are
/// decoded.
pub open spec fn strip_from(s: Seq<char>, i: int, tag: bool, script: bool, style: bool, out: Seq<char>) -> Seq<char>
    decreases (if 0 <= i < s.len() { s.len() - i } else { 0 }),
{
    if i < 0 || i >= s.len() {
        out
    } else {
        let l = lowered(s);
        let c = s[i];
        if c == '<' {
            if has_at(l, i, "<script"@) {
                strip_from(s, i + 1, true, true, style, out)
            } else if has_at(l, i, "<style"@) {
                strip_from(s, i + 1, true, script, true, out)
            } else if has_at(l, i, "</script"@) {
                strip_from(s, i + 1, true, false, style, out)
            } else if has_at(l, i, "</style"@) {
                strip_from(s, i + 1, true, script, false, out)
            } else {
                strip_from(s, i + 1, true, script, style, out)
            }
        } else if c == '>' {
            let nl = closes_block(l, i) && !(out.len() > 0 && out.last() == '\n');
            strip_from(s, i + 1, false, script, style, if nl { out.push('\n') } else { out })
        } else if tag || script || style {
            strip_from(s, i + 1, tag, script, style, out)
        } else if c == '&' && entity_at(s, i) is Some {
            let (d, n) = entity_at(s, i).unwrap();
            proof {
                lemma_entity_len(s, i);
            }
            strip_from(s, i + n, tag, script, style, out.push(d))
        } else {
            strip_from(s, i + 1, tag, script, style, out.push(c))
        }
    }
}

/// The trimmed lines that are not blank.
pub open spec fn nonblank_lines(ls: Seq<Seq<char>>) -> Seq<Seq<char>>
    decreases ls.len(),
{
    if ls.len() == 0 {
        seq![]
    } else {
        let rest = nonblank_lines(ls.drop_last());
        let t = trim(ls.last());
        if t.len() == 0 {
            rest
        } else {
            rest.push(t)
        }
    }
}

/// HTML as plain text: the stripped text, trimmed line by line, blank
/// lines dropped.
pub open spec fn spec_strip_html(s: Seq<char>) -> Seq<char> {
    join(nonblank_lines(lines(strip_from(s, 0, false, false, false, seq![]))), "\n"@)
}

fn nonblank_lines_exec(ls: &Vec<String>) -> (r: Vec<String>)
    ensures
        views(r@) == nonblank_lines(views(ls@)),
{
    let mut out: Vec<String> = Vec::new();
    let mut i: usize = 0;
    while i < ls.len()
        invariant
            i <= ls.len(),
            views(out@) == nonblank_lines(views(ls@).take(i as int)),
        decreases ls.len() - i,
    {
        proof {
            assert(views(ls@).take(i + 1).drop_last() =~= views(ls@).take(i as int));
        }
        let t = trim_str(ls[i].as_str());
        if t.unicode_len() > 0 {
            let ghost o = views(out@);
            out.push(t);
            proof {
                assert(views(out@) =~= o.push(t@));
            }
        }
        i += 1;
    }
    proof {
        assert(views(ls@).take(ls.len() as int) =~= views(ls@));
    }
    out
}

/// HTML as plain text (see `spec_strip_html`).
pub fn strip_html(html: &str) -> (r: String)
    ensures
        r@ == spec_strip_html(html@),
{
    let v = chars_of(html);
    let low = lower_string(html);
    let mut out = String::new();
    let mut tag = false;
    let mut script = false;
    let mut style = false;
    let mut i: usize = 0;
    proof {
        reveal_strlit("<script");
        reveal_strlit("<style");
        reveal_strlit("</script");
        reveal_strlit("</style");
    }
    while i < v.len()
        invariant
            v@ == html@,
            low@ == lowered(html@),
            i <= v.len(),
            strip_from(v@, 0, false, false, false, seq![]) == strip_from(
                v@,
                i as int,
                tag,
                script,
                style,
                out@,
            ),
        decreases v.len() - i,
    {
        let c = v[i];
        if c == '<' {
            if has_at_exec(&low, i, "<script") {
                script = true;
            } else if has_at_exec(&low, i, "<style") {
                style = true;
            } else if has_at_exec(&low, i, "</script") {
                script = false;
            } else if has_at_exec(&low, i, "</style") {
                style = false;
            }
            tag = true;
            i += 1;
        } else if c == '>' {
            tag = false;
            let a = if i >= 10 { i - 10 } else { 0 };
            let closes = occurs_within_exec(&low, a, i + 1, "</p") || occurs_within_exec(
                &low,
                a,
                i + 1,
                "</div",
            ) || occurs_within_exec(&low, a, i + 1, "</h") || occurs_within_exec(
                &low,
                a,
                i + 1,
                "<br",
            );
            let n = out.unicode_len();
            let ends_nl = n > 0 && out.get_char(n - 1) == '\n';
            if closes && !ends_nl {
                push_char(&mut out, '\n');
            }
            i += 1;
        } else if tag || script || style {
            i += 1;
        } else {
            let ent = if c == '&' {
                decode_html_entity(&v, i)
            } else {
                None
            };
            match ent {
                Some((d, n)) => {
                    push_char(&mut out, d);
                    i += n;
                },
                None => {
                    push_char(&mut out, c);
                    i += 1;
                },
            }
        }
    }
    let ls = lines_of(out.as_str());
    let kept = nonblank_lines_exec(&ls);
    join_str(&kept, "\n")
}

// ---------------------------------------------------------------------------
// Shaping the output
// ---------------------------------------------------------------------------

/// The body as handed back before any cut: raw for `html`, else as text.
pub open spec fn spec_fetch_content(body: Seq<char>, format: Seq<char>) -> Seq<char> {
    if format == "html"@ {
        body
    } else {
        spec_strip_html(body)
    }
}

/// The tool's output and whether it was cut: content over 100 000 bytes is
/// cut at the last character boundary within them and marked with its
/// full size.
pub open spec fn spec_fetch_output(body: Seq<char>, format: Seq<char>) -> (Seq<char>, bool) {
    let c = spec_fetch_content(body, format);
    let b = encode_utf8(c);
    if b.len() > 100_000 {
        (decode_utf8(b.subrange(0, boundary_floor(b, 100_000))) + "...\n\n[truncated at 100K / "@
            + decimal(b.len()) + " total]"@, true)
    } else {
        (c, false)
    }
}

pub fn fetch_output(body: &str, format: &str) -> (r: (String, bool))
    requires
        encode_utf8(spec_fetch_content(body@, format@)).len() <= usize::MAX,
    ensures
        (r.0@, r.1) == spec_fetch_output(body@, format@),
{
    let content = if str_eq(format, "html") {
        String::from_str(body)
    } else {
        strip_html(body)
    };
    let n = content.as_str().len();
    if n > 100_000 {
        let cut = truncate_str(content.as_str(), 100_000);
        proof {
            vstd::utf8::encode_utf8_decode_utf8(cut@);
        }
        let mut m = String::from_str(cut);
        m.append("...\n\n[truncated at 100K / ");
        let d = decimal_string(n as u64);
        m.append(d.as_str());
        m.append(" total]");
        (m, true)
    } else {
        (content, false)
    }
}

} // verus!
