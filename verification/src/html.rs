//! HTML → plain text conversion for terminal display.
//!
//! Strips tags, decodes entities, and turns block-level tags into line
//! breaks.

use vstd::prelude::*;
use crate::text::{
    ascii_lower, ascii_lower_exec, chars_of, is_ascii_alnum, is_ascii_alnum_exec, is_ws,
    is_ws_exec, lead_end, push_char, str_eq, string_of_char, string_of_range, skip_ws, find,
    find_exec, find_from, lemma_find_from, lower_string, lowered,
};
use crate::num::{char_from_u32, is_scalar, parse_uint, parse_uint_exec};
use crate::latex::{to_sub, to_subscript, to_super, to_superscript};
use crate::styled::{
    extend_spans, joined_text, plain_style, spans_text, spans_view, tone_style, StyledSpan, TextStyle, Tone,
};

verus! {

/// The text a named entity stands for.
pub open spec fn spec_named_entity(name: Seq<char>) -> Option<Seq<char>> {
    if name == "amp"@ {
        Some("&"@)
    } else if name == "lt"@ {
        Some("<"@)
    } else if name == "gt"@ {
        Some(">"@)
    } else if name == "quot"@ {
        Some("\""@)
    } else if name == "apos"@ {
        Some("'"@)
    } else if name == "nbsp"@ {
        Some(" "@)
    } else if name == "copy"@ {
        Some("\u{a9}"@)
    } else if name == "reg"@ {
        Some("\u{ae}"@)
    } else if name == "trade"@ {
        Some("\u{2122}"@)
    } else if name == "mdash"@ {
        Some("\u{2014}"@)
    } else if name == "ndash"@ {
        Some("\u{2013}"@)
    } else if name == "hellip"@ {
        Some("\u{2026}"@)
    } else if name == "laquo"@ {
        Some("\u{ab}"@)
    } else if name == "raquo"@ {
        Some("\u{bb}"@)
    } else if name == "times"@ {
        Some("\u{d7}"@)
    } else if name == "divide"@ {
        Some("\u{f7}"@)
    } else if name == "deg"@ {
        Some("\u{b0}"@)
    } else if name == "euro"@ {
        Some("\u{20ac}"@)
    } else if name == "pound"@ {
        Some("\u{a3}"@)
    } else if name == "yen"@ {
        Some("\u{a5}"@)
    } else if name == "cent"@ {
        Some("\u{a2}"@)
    } else if name == "para"@ {
        Some("\u{b6}"@)
    } else if name == "sect"@ {
        Some("\u{a7}"@)
    } else if name == "bull"@ {
        Some("\u{2022}"@)
    } else if name == "middot"@ {
        Some("\u{b7}"@)
    } else if name == "larr"@ {
        Some("\u{2190}"@)
    } else if name == "rarr"@ {
        Some("\u{2192}"@)
    } else if name == "uarr"@ {
        Some("\u{2191}"@)
    } else if name == "darr"@ {
        Some("\u{2193}"@)
    } else if name == "harr"@ {
        Some("\u{2194}"@)
    } else if name == "crarr"@ {
        Some("\u{21b5}"@)
    } else if name == "infin"@ {
        Some("\u{221e}"@)
    } else if name == "ne"@ {
        Some("\u{2260}"@)
    } else if name == "le"@ {
        Some("\u{2264}"@)
    } else if name == "ge"@ {
        Some("\u{2265}"@)
    } else if name == "plusmn"@ {
        Some("\u{b1}"@)
    } else if name == "frac12"@ {
        Some("\u{bd}"@)
    } else if name == "frac14"@ {
        Some("\u{bc}"@)
    } else if name == "frac34"@ {
        Some("\u{be}"@)
    } else if name == "sup2"@ {
        Some("\u{b2}"@)
    } else if name == "sup3"@ {
        Some("\u{b3}"@)
    } else if name == "alpha"@ {
        Some("\u{3b1}"@)
    } else if name == "beta"@ {
        Some("\u{3b2}"@)
    } else if name == "gamma"@ {
        Some("\u{3b3}"@)
    } else if name == "delta"@ {
        Some("\u{3b4}"@)
    } else if name == "pi"@ {
        Some("\u{3c0}"@)
    } else if name == "Sigma"@ {
        Some("\u{3a3}"@)
    } else if name == "sum"@ {
        Some("\u{2211}"@)
    } else if name == "int"@ {
        Some("\u{222b}"@)
    } else if name == "radic"@ {
        Some("\u{221a}"@)
    } else if name == "prop"@ {
        Some("\u{221d}"@)
    } else if name == "part"@ {
        Some("\u{2202}"@)
    } else if name == "nabla"@ {
        Some("\u{2207}"@)
    } else if name == "forall"@ {
        Some("\u{2200}"@)
    } else if name == "exist"@ {
        Some("\u{2203}"@)
    } else if name == "empty"@ {
        Some("\u{2205}"@)
    } else if name == "isin"@ {
        Some("\u{2208}"@)
    } else if name == "notin"@ {
        Some("\u{2209}"@)
    } else if name == "sub"@ {
        Some("\u{2282}"@)
    } else if name == "sup"@ {
        Some("\u{2283}"@)
    } else if name == "cap"@ {
        Some("\u{2229}"@)
    } else if name == "cup"@ {
        Some("\u{222a}"@)
    } else if name == "and"@ {
        Some("\u{2227}"@)
    } else if name == "or"@ {
        Some("\u{2228}"@)
    } else if name == "lceil"@ {
        Some("\u{2308}"@)
    } else if name == "rceil"@ {
        Some("\u{2309}"@)
    } else if name == "lfloor"@ {
        Some("\u{230a}"@)
    } else if name == "rfloor"@ {
        Some("\u{230b}"@)
    } else if name == "lang"@ {
        Some("\u{27e8}"@)
    } else if name == "rang"@ {
        Some("\u{27e9}"@)
    } else if name == "loz"@ {
        Some("\u{25ca}"@)
    } else if name == "spades"@ {
        Some("\u{2660}"@)
    } else if name == "clubs"@ {
        Some("\u{2663}"@)
    } else if name == "hearts"@ {
        Some("\u{2665}"@)
    } else if name == "diams"@ {
        Some("\u{2666}"@)
    } else {
        None
    }
}

pub fn named_entity(name: &str) -> (r: Option<&'static str>)
    ensures
        match r {
            Some(x) => spec_named_entity(name@) == Some(x@),
            None => spec_named_entity(name@) is None,
        },
{
    if str_eq(name, "amp") {
        Some("&")
    } else if str_eq(name, "lt") {
        Some("<")
    } else if str_eq(name, "gt") {
        Some(">")
    } else if str_eq(name, "quot") {
        Some("\"")
    } else if str_eq(name, "apos") {
        Some("'")
    } else if str_eq(name, "nbsp") {
        Some(" ")
    } else if str_eq(name, "copy") {
        Some("\u{a9}")
    } else if str_eq(name, "reg") {
        Some("\u{ae}")
    } else if str_eq(name, "trade") {
        Some("\u{2122}")
    } else if str_eq(name, "mdash") {
        Some("\u{2014}")
    } else if str_eq(name, "ndash") {
        Some("\u{2013}")
    } else if str_eq(name, "hellip") {
        Some("\u{2026}")
    } else if str_eq(name, "laquo") {
        Some("\u{ab}")
    } else if str_eq(name, "raquo") {
        Some("\u{bb}")
    } else if str_eq(name, "times") {
        Some("\u{d7}")
    } else if str_eq(name, "divide") {
        Some("\u{f7}")
    } else if str_eq(name, "deg") {
        Some("\u{b0}")
    } else if str_eq(name, "euro") {
        Some("\u{20ac}")
    } else if str_eq(name, "pound") {
        Some("\u{a3}")
    } else if str_eq(name, "yen") {
        Some("\u{a5}")
    } else if str_eq(name, "cent") {
        Some("\u{a2}")
    } else if str_eq(name, "para") {
        Some("\u{b6}")
    } else if str_eq(name, "sect") {
        Some("\u{a7}")
    } else if str_eq(name, "bull") {
        Some("\u{2022}")
    } else if str_eq(name, "middot") {
        Some("\u{b7}")
    } else if str_eq(name, "larr") {
        Some("\u{2190}")
    } else if str_eq(name, "rarr") {
        Some("\u{2192}")
    } else if str_eq(name, "uarr") {
        Some("\u{2191}")
    } else if str_eq(name, "darr") {
        Some("\u{2193}")
    } else if str_eq(name, "harr") {
        Some("\u{2194}")
    } else if str_eq(name, "crarr") {
        Some("\u{21b5}")
    } else if str_eq(name, "infin") {
        Some("\u{221e}")
    } else if str_eq(name, "ne") {
        Some("\u{2260}")
    } else if str_eq(name, "le") {
        Some("\u{2264}")
    } else if str_eq(name, "ge") {
        Some("\u{2265}")
    } else if str_eq(name, "plusmn") {
        Some("\u{b1}")
    } else if str_eq(name, "frac12") {
        Some("\u{bd}")
    } else if str_eq(name, "frac14") {
        Some("\u{bc}")
    } else if str_eq(name, "frac34") {
        Some("\u{be}")
    } else if str_eq(name, "sup2") {
        Some("\u{b2}")
    } else if str_eq(name, "sup3") {
        Some("\u{b3}")
    } else if str_eq(name, "alpha") {
        Some("\u{3b1}")
    } else if str_eq(name, "beta") {
        Some("\u{3b2}")
    } else if str_eq(name, "gamma") {
        Some("\u{3b3}")
    } else if str_eq(name, "delta") {
        Some("\u{3b4}")
    } else if str_eq(name, "pi") {
        Some("\u{3c0}")
    } else if str_eq(name, "Sigma") {
        Some("\u{3a3}")
    } else if str_eq(name, "sum") {
        Some("\u{2211}")
    } else if str_eq(name, "int") {
        Some("\u{222b}")
    } else if str_eq(name, "radic") {
        Some("\u{221a}")
    } else if str_eq(name, "prop") {
        Some("\u{221d}")
    } else if str_eq(name, "part") {
        Some("\u{2202}")
    } else if str_eq(name, "nabla") {
        Some("\u{2207}")
    } else if str_eq(name, "forall") {
        Some("\u{2200}")
    } else if str_eq(name, "exist") {
        Some("\u{2203}")
    } else if str_eq(name, "empty") {
        Some("\u{2205}")
    } else if str_eq(name, "isin") {
        Some("\u{2208}")
    } else if str_eq(name, "notin") {
        Some("\u{2209}")
    } else if str_eq(name, "sub") {
        Some("\u{2282}")
    } else if str_eq(name, "sup") {
        Some("\u{2283}")
    } else if str_eq(name, "cap") {
        Some("\u{2229}")
    } else if str_eq(name, "cup") {
        Some("\u{222a}")
    } else if str_eq(name, "and") {
        Some("\u{2227}")
    } else if str_eq(name, "or") {
        Some("\u{2228}")
    } else if str_eq(name, "lceil") {
        Some("\u{2308}")
    } else if str_eq(name, "rceil") {
        Some("\u{2309}")
    } else if str_eq(name, "lfloor") {
        Some("\u{230a}")
    } else if str_eq(name, "rfloor") {
        Some("\u{230b}")
    } else if str_eq(name, "lang") {
        Some("\u{27e8}")
    } else if str_eq(name, "rang") {
        Some("\u{27e9}")
    } else if str_eq(name, "loz") {
        Some("\u{25ca}")
    } else if str_eq(name, "spades") {
        Some("\u{2660}")
    } else if str_eq(name, "clubs") {
        Some("\u{2663}")
    } else if str_eq(name, "hearts") {
        Some("\u{2665}")
    } else if str_eq(name, "diams") {
        Some("\u{2666}")
    } else {
        None
    }
}

/// Tags that stand alone, without a closing tag.
pub open spec fn spec_void_tag(tag: Seq<char>) -> bool {
    tag == "br"@ || tag == "hr"@ || tag == "img"@ || tag == "input"@ || tag == "meta"@ || tag == "link"@ || tag == "area"@ || tag == "base"@ || tag == "col"@ || tag == "embed"@ || tag == "source"@ || tag == "track"@ || tag == "wbr"@
}

pub fn is_void_tag(tag: &str) -> (r: bool)
    ensures
        r == spec_void_tag(tag@),
{
    str_eq(tag, "br") || str_eq(tag, "hr") || str_eq(tag, "img") || str_eq(tag, "input") || str_eq(tag, "meta") || str_eq(tag, "link") || str_eq(tag, "area") || str_eq(tag, "base") || str_eq(tag, "col") || str_eq(tag, "embed") || str_eq(tag, "source") || str_eq(tag, "track") || str_eq(tag, "wbr")
}

/// Tags that start a new line.
pub open spec fn spec_block_tag(tag: Seq<char>) -> bool {
    tag == "p"@ || tag == "div"@ || tag == "br"@ || tag == "hr"@ || tag == "li"@ || tag == "tr"@ || tag == "h1"@ || tag == "h2"@ || tag == "h3"@ || tag == "h4"@ || tag == "h5"@ || tag == "h6"@ || tag == "ul"@ || tag == "ol"@ || tag == "table"@ || tag == "thead"@ || tag == "tbody"@ || tag == "blockquote"@ || tag == "pre"@ || tag == "section"@ || tag == "article"@ || tag == "header"@ || tag == "footer"@ || tag == "nav"@ || tag == "aside"@ || tag == "figure"@ || tag == "figcaption"@ || tag == "details"@ || tag == "summary"@
}

pub fn is_block_tag(tag: &str) -> (r: bool)
    ensures
        r == spec_block_tag(tag@),
{
    str_eq(tag, "p") || str_eq(tag, "div") || str_eq(tag, "br") || str_eq(tag, "hr") || str_eq(tag, "li") || str_eq(tag, "tr") || str_eq(tag, "h1") || str_eq(tag, "h2") || str_eq(tag, "h3") || str_eq(tag, "h4") || str_eq(tag, "h5") || str_eq(tag, "h6") || str_eq(tag, "ul") || str_eq(tag, "ol") || str_eq(tag, "table") || str_eq(tag, "thead") || str_eq(tag, "tbody") || str_eq(tag, "blockquote") || str_eq(tag, "pre") || str_eq(tag, "section") || str_eq(tag, "article") || str_eq(tag, "header") || str_eq(tag, "footer") || str_eq(tag, "nav") || str_eq(tag, "aside") || str_eq(tag, "figure") || str_eq(tag, "figcaption") || str_eq(tag, "details") || str_eq(tag, "summary")
}

/// First index at or after `i` holding `c`, or the length.
pub open spec fn next_char(s: Seq<char>, c: char, i: int) -> int
    decreases s.len() - i,
{
    if i < 0 || i >= s.len() || s[i] == c {
        i
    } else {
        next_char(s, c, i + 1)
    }
}

/// End of the run of ASCII letters and digits starting at `i`.
pub open spec fn alnum_end(s: Seq<char>, i: int) -> int
    decreases s.len() - i,
{
    if 0 <= i < s.len() && is_ascii_alnum(s[i]) {
        alnum_end(s, i + 1)
    } else {
        i
    }
}

/// Position after a closing `>` found at `gt` (or `gt` at the end).
pub open spec fn past(s: Seq<char>, gt: int) -> int {
    if gt < s.len() {
        gt + 1
    } else {
        gt
    }
}

/// The tag starting with `<` at `start`: its lower-cased name, whether it is
/// a closing tag, whether it closes itself, and where it ends. Comments and
/// declarations (`<!...>`) have an empty name and close themselves.
pub open spec fn spec_parse_tag(s: Seq<char>, start: int) -> (Seq<char>, bool, bool, int) {
    let i0 = start + 1;
    if 0 <= i0 < s.len() && s[i0] == '!' {
        (seq![], false, true, past(s, next_char(s, '>', i0)))
    } else {
        let closing = 0 <= i0 < s.len() && s[i0] == '/';
        let i1 = if closing {
            i0 + 1
        } else {
            i0
        };
        let i2 = lead_end(s, i1);
        let i3 = alnum_end(s, i2);
        let gt = next_char(s, '>', i3);
        let self_closing = exists|k: int| i3 <= k < gt && s[k] == '/';
        (s.subrange(i2, i3).map_values(|c: char| ascii_lower(c)), closing, self_closing, past(s, gt))
    }
}

proof fn lemma_next_char(s: Seq<char>, c: char, i: int)
    requires
        0 <= i <= s.len(),
    ensures
        i <= next_char(s, c, i) <= s.len(),
        next_char(s, c, i) < s.len() ==> s[next_char(s, c, i)] == c,
        forall|k: int| i <= k < next_char(s, c, i) ==> s[k] != c,
    decreases s.len() - i,
{
    if i < s.len() && s[i] != c {
        lemma_next_char(s, c, i + 1);
    }
}

proof fn lemma_alnum_end(s: Seq<char>, i: int)
    requires
        0 <= i <= s.len(),
    ensures
        i <= alnum_end(s, i) <= s.len(),
    decreases s.len() - i,
{
    if i < s.len() && is_ascii_alnum(s[i]) {
        lemma_alnum_end(s, i + 1);
    }
}

fn next_char_exec(v: &Vec<char>, c: char, from: usize) -> (r: usize)
    requires
        from <= v.len(),
    ensures
        r as int == next_char(v@, c, from as int),
        from <= r <= v.len(),
        forall|k: int| from <= k < r ==> v@[k] != c,
{
    let mut i = from;
    while i < v.len() && v[i] != c
        invariant
            from <= i <= v.len(),
            next_char(v@, c, from as int) == next_char(v@, c, i as int),
            forall|k: int| from <= k < i ==> v@[k] != c,
        decreases v.len() - i,
    {
        i += 1;
    }
    i
}

/// Parses the tag starting with `<` at `start` (see `spec_parse_tag`).
pub fn parse_tag(chars: &Vec<char>, start: usize) -> (r: (String, bool, bool, usize))
    requires
        start < chars.len(),
    ensures
        (r.0@, r.1, r.2, r.3 as int) == spec_parse_tag(chars@, start as int),
        start < r.3 <= chars.len(),
{
    let ghost s = chars@;
    let mut i = start + 1;
    if i < chars.len() && chars[i] == '!' {
        let gt = next_char_exec(chars, '>', i);
        let end = if gt < chars.len() {
            gt + 1
        } else {
            gt
        };
        return (String::new(), false, true, end);
    }
    let is_closing = i < chars.len() && chars[i] == '/';
    if is_closing {
        i += 1;
    }
    proof {
        crate::text::lemma_lead_end(s, i as int);
    }
    let name_start = skip_ws(chars, i, chars.len());
    let mut j = name_start;
    proof {
        lemma_alnum_end(s, name_start as int);
    }
    while j < chars.len() && is_ascii_alnum_exec(chars[j])
        invariant
            name_start <= j <= chars.len(),
            alnum_end(s, name_start as int) == alnum_end(s, j as int),
            s == chars@,
        decreases chars.len() - j,
    {
        j += 1;
    }
    let mut name = String::new();
    let mut k = name_start;
    while k < j
        invariant
            name_start <= k <= j <= chars.len(),
            s == chars@,
            name@ =~= s.subrange(name_start as int, k as int).map_values(|c: char| ascii_lower(c)),
        decreases j - k,
    {
        push_char(&mut name, ascii_lower_exec(chars[k]));
        k += 1;
    }
    let mut self_closing = false;
    let mut g = j;
    while g < chars.len() && chars[g] != '>'
        invariant
            j <= g <= chars.len(),
            s == chars@,
            next_char(s, '>', j as int) == next_char(s, '>', g as int),
            self_closing == exists|m: int| j <= m < g && s[m] == '/',
        decreases chars.len() - g,
    {
        if chars[g] == '/' {
            self_closing = true;
        }
        g += 1;
    }
    let end = if g < chars.len() {
        g + 1
    } else {
        g
    };
    (name, is_closing, self_closing, end)
}

/// The character of a numeric entity body (`#65`, `#x41`), when valid.
pub open spec fn numeric_entity(entity: Seq<char>) -> Option<char> {
    if entity.len() > 0 && entity[0] == '#' {
        let stripped = entity.drop_first();
        if stripped.len() > 0 && (stripped[0] == 'x' || stripped[0] == 'X') {
            match parse_uint(stripped.drop_first(), 16, 0xFFFF_FFFF) {
                Some(code) => if is_scalar(code as u32) {
                    Some((code as u32) as char)
                } else {
                    None
                },
                None => None,
            }
        } else {
            match parse_uint(stripped, 10, 0xFFFF_FFFF) {
                Some(code) => if is_scalar(code as u32) {
                    Some((code as u32) as char)
                } else {
                    None
                },
                None => None,
            }
        }
    } else {
        None
    }
}

/// End of an entity name started at `start`: the first `;`, the end of
/// the text, or twelve characters on.
pub open spec fn entity_end(s: Seq<char>, start: int, end: int) -> int
    decreases s.len() - end,
{
    if end < 0 || end >= s.len() || s[end] == ';' || end - start >= 12 {
        end
    } else {
        entity_end(s, start, end + 1)
    }
}

/// The text of the entity starting with `&` at `start`, and where reading
/// continues; an unknown or unterminated entity yields the `&` alone.
pub open spec fn spec_decode_entity(s: Seq<char>, start: int) -> (Seq<char>, int) {
    let end = entity_end(s, start, start + 1);
    if end < s.len() && s[end] == ';' {
        let entity = s.subrange(start + 1, end);
        if numeric_entity(entity) is Some {
            (seq![numeric_entity(entity).unwrap()], end + 1)
        } else if spec_named_entity(entity) is Some {
            (spec_named_entity(entity).unwrap(), end + 1)
        } else {
            (seq![s[start]], start + 1)
        }
    } else {
        (seq![s[start]], start + 1)
    }
}

pub fn numeric_entity_exec(v: &Vec<char>, from: usize, to: usize) -> (r: Option<char>)
    requires
        from <= to <= v.len(),
    ensures
        r == numeric_entity(v@.subrange(from as int, to as int)),
{
    let ghost e = v@.subrange(from as int, to as int);
    if from < to && v[from] == '#' {
        let ghost st = e.drop_first();
        assert(st =~= v@.subrange(from + 1, to as int));
        if from + 1 < to && (v[from + 1] == 'x' || v[from + 1] == 'X') {
            assert(st.drop_first() =~= v@.subrange(from + 2, to as int));
            match parse_uint_exec(v, from + 2, to, 16, 0xFFFF_FFFF) {
                Some(code) => char_from_u32(code as u32),
                None => None,
            }
        } else {
            match parse_uint_exec(v, from + 1, to, 10, 0xFFFF_FFFF) {
                Some(code) => char_from_u32(code as u32),
                None => None,
            }
        }
    } else {
        None
    }
}

/// Decodes the entity starting with `&` at `start` (see `spec_decode_entity`).
pub fn decode_entity(chars: &Vec<char>, start: usize) -> (r: (String, usize))
    requires
        start < chars.len(),
    ensures
        (r.0@, r.1 as int) == spec_decode_entity(chars@, start as int),
        start < r.1 <= chars.len(),
{
    let mut end = start + 1;
    while end < chars.len() && chars[end] != ';' && end - start < 12
        invariant
            start < end <= chars.len(),
            entity_end(chars@, start as int, start + 1) == entity_end(
                chars@,
                start as int,
                end as int,
            ),
        decreases chars.len() - end,
    {
        end += 1;
    }
    if end < chars.len() && chars[end] == ';' {
        let next = end + 1;
        match numeric_entity_exec(chars, start + 1, end) {
            Some(c) => {
                return (string_of_char(c), next);
            },
            None => {},
        }
        let entity = string_of_range(chars, start + 1, end);
        match named_entity(entity.as_str()) {
            Some(x) => {
                return (String::from_str(x), next);
            },
            None => {},
        }
    }
    (string_of_char(chars[start]), start + 1)
}

/// The plain text of HTML from position `i` on, appended to `acc`.
pub open spec fn html_text_from(s: Seq<char>, i: int, acc: Seq<char>) -> Seq<char>
    decreases (if 0 <= i < s.len() { s.len() - i } else { 0 }),
{
    if i < 0 || i >= s.len() {
        acc
    } else if s[i] == '<' {
        let (tag, closing, _sc, end) = spec_parse_tag(s, i);
        let acc2 = if !closing && spec_block_tag(tag) && acc.len() > 0 && acc.last() != '\n' {
            acc.push('\n')
        } else {
            acc
        };
        html_text_from(s, if end > i { end } else { i + 1 }, acc2)
    } else if s[i] == '&' {
        let (d, next) = spec_decode_entity(s, i);
        html_text_from(s, if next > i { next } else { i + 1 }, acc + d)
    } else {
        html_text_from(s, i + 1, acc.push(s[i]))
    }
}

/// The plain text of HTML: tags stripped, entities decoded, block-level
/// tags turned into line breaks.
pub open spec fn spec_html_to_text(html: Seq<char>) -> Seq<char> {
    html_text_from(html, 0, seq![])
}

/// Strip all HTML tags and decode entities. Block-level tags become newlines.
pub fn html_to_text(html: &str) -> (r: String)
    ensures
        r@ == spec_html_to_text(html@),
{
    let chars = chars_of(html);
    let ghost s = chars@;
    let mut result = String::new();
    let mut last: char = ' ';
    let mut i: usize = 0;
    while i < chars.len()
        invariant
            s == chars@,
            i <= chars.len(),
            spec_html_to_text(s) == html_text_from(s, i as int, result@),
            result@.len() > 0 ==> last == result@.last(),
        decreases chars.len() - i,
    {
        if chars[i] == '<' {
            let (tag, is_closing, _sc, end) = parse_tag(&chars, i);
            let nonempty = result.as_str().unicode_len() > 0;
            if !is_closing && is_block_tag(tag.as_str()) && nonempty && last != '\n' {
                push_char(&mut result, '\n');
                last = '\n';
            }
            i = end;
        } else if chars[i] == '&' {
            let (decoded, next) = decode_entity(&chars, i);
            let n = decoded.as_str().unicode_len();
            if n > 0 {
                last = decoded.as_str().get_char(n - 1);
            }
            result.append(decoded.as_str());
            i = next;
        } else {
            push_char(&mut result, chars[i]);
            last = chars[i];
            i += 1;
        }
    }
    result
}


/// End of an unquoted attribute value starting at `i`: the first
/// whitespace or `>`, or the end.
pub open spec fn value_end(s: Seq<char>, i: int) -> int
    decreases s.len() - i,
{
    if i < 0 || i >= s.len() || is_ws(s[i]) || s[i] == '>' {
        i
    } else {
        value_end(s, i + 1)
    }
}

/// The link target in a tag's text: after the first `href` in any letter
/// case, an `=` between optional whitespace, then a value in double or
/// single quotes up to the closing quote, or an unquoted value up to
/// whitespace or `>`.
pub open spec fn spec_extract_href(tag: Seq<char>) -> Option<Seq<char>> {
    match find(lowered(tag), "href"@) {
        None => None,
        Some(p) => {
            let e = lead_end(tag, p + 4);
            if e >= tag.len() || tag[e] != '=' {
                None
            } else {
                let q = lead_end(tag, e + 1);
                if q < tag.len() && tag[q] == '"' {
                    match find_from(tag, "\""@, q + 1) {
                        Some(k) => Some(tag.subrange(q + 1, k)),
                        None => None,
                    }
                } else if q < tag.len() && tag[q] == '\'' {
                    match find_from(tag, "'"@, q + 1) {
                        Some(k) => Some(tag.subrange(q + 1, k)),
                        None => None,
                    }
                } else {
                    Some(tag.subrange(q, value_end(tag, q)))
                }
            }
        }
    }
}

/// The link target in a tag's text (see `spec_extract_href`).
pub fn extract_href(tag: &str) -> (r: Option<String>)
    ensures
        match r {
            Some(h) => spec_extract_href(tag@) == Some(h@),
            None => spec_extract_href(tag@) is None,
        },
{
    let v = chars_of(tag);
    let l = lower_string(tag);
    let p = match find_exec(&l, "href", 0) {
        Some(p) => p,
        None => {
            return None;
        },
    };
    proof {
        reveal_strlit("href");
        lemma_find_from(l@, "href"@, 0);
    }
    let e = skip_ws(&v, p + 4, v.len());
    if e >= v.len() || v[e] != '=' {
        return None;
    }
    let q = skip_ws(&v, e + 1, v.len());
    if q < v.len() && v[q] == '"' {
        proof {
            reveal_strlit("\"");
            lemma_find_from(v@, "\""@, q + 1);
        }
        match find_exec(&v, "\"", q + 1) {
            Some(k) => Some(string_of_range(&v, q + 1, k)),
            None => None,
        }
    } else if q < v.len() && v[q] == '\'' {
        proof {
            reveal_strlit("'");
            lemma_find_from(v@, "'"@, q + 1);
        }
        match find_exec(&v, "'", q + 1) {
            Some(k) => Some(string_of_range(&v, q + 1, k)),
            None => None,
        }
    } else {
        let mut end = q;
        while end < v.len() && !is_ws_exec(v[end]) && v[end] != '>'
            invariant
                q <= end <= v.len(),
                value_end(v@, q as int) == value_end(v@, end as int),
            decreases v.len() - end,
        {
            end += 1;
        }
        Some(string_of_range(&v, q, end))
    }
}


// ---------------------------------------------------------------------------
// HTML to styled spans
// ---------------------------------------------------------------------------

/// The style inside a tag: bold, italic, struck, underlined, dim or
/// reversed text keeps the outer style and adds its modifier; code takes
/// the tool role alone; other tags change nothing.
pub open spec fn spec_merge_style(tag: Seq<char>, cur: TextStyle) -> TextStyle {
    if tag == "b"@ || tag == "strong"@ {
        TextStyle { bold: true, ..cur }
    } else if tag == "i"@ || tag == "em"@ {
        TextStyle { italic: true, ..cur }
    } else if tag == "code"@ || tag == "kbd"@ || tag == "samp"@ || tag == "tt"@ {
        tone_style(Tone::Tool)
    } else if tag == "s"@ || tag == "del"@ || tag == "strike"@ {
        TextStyle { crossed: true, ..cur }
    } else if tag == "u"@ || tag == "ins"@ {
        TextStyle { underlined: true, ..cur }
    } else if tag == "small"@ {
        TextStyle { dim: true, ..cur }
    } else if tag == "mark"@ {
        TextStyle { reversed: true, ..cur }
    } else {
        cur
    }
}

fn merge_style(tag: &str, cur: TextStyle) -> (r: TextStyle)
    ensures
        r == spec_merge_style(tag@, cur),
{
    if str_eq(tag, "b") || str_eq(tag, "strong") {
        TextStyle { bold: true, ..cur }
    } else if str_eq(tag, "i") || str_eq(tag, "em") {
        TextStyle { italic: true, ..cur }
    } else if str_eq(tag, "code") || str_eq(tag, "kbd") || str_eq(tag, "samp") || str_eq(tag, "tt") {
        plain_style(Tone::Tool)
    } else if str_eq(tag, "s") || str_eq(tag, "del") || str_eq(tag, "strike") {
        TextStyle { crossed: true, ..cur }
    } else if str_eq(tag, "u") || str_eq(tag, "ins") {
        TextStyle { underlined: true, ..cur }
    } else if str_eq(tag, "small") {
        TextStyle { dim: true, ..cur }
    } else if str_eq(tag, "mark") {
        TextStyle { reversed: true, ..cur }
    } else {
        cur
    }
}

/// `acc` with the pending `text` added as a span, if there is any.
pub open spec fn flush_text(acc: Seq<(Seq<char>, TextStyle)>, text: Seq<char>, style: TextStyle) -> Seq<(Seq<char>, TextStyle)> {
    if text.len() > 0 {
        acc.push((text, style))
    } else {
        acc
    }
}

/// What an element's content becomes once its tag closes: `sup` and `sub`
/// content as one span of super- or subscript characters (or `^(..)`,
/// `_(..)` where some character has none); a link's content followed by
/// its target in muted parentheses; any other element's content as is.
/// `i..end` is the opening tag.
pub open spec fn element_spans(
    s: Seq<char>,
    i: int,
    end: int,
    tag: Seq<char>,
    style: TextStyle,
    child: Seq<(Seq<char>, TextStyle)>,
) -> Seq<(Seq<char>, TextStyle)> {
    if tag == "sup"@ || tag == "sub"@ {
        let inner = spans_text(child);
        let conv = if tag == "sup"@ { to_super(inner) } else { to_sub(inner) };
        let converted = match conv {
            Some(x) => x,
            None => seq![if tag == "sup"@ { '^' } else { '_' }] + "("@ + inner + ")"@,
        };
        seq![(converted, style)]
    } else if tag == "a"@ {
        match spec_extract_href(s.subrange(i, end)) {
            Some(h) => child.push((" ("@ + h + ")"@, tone_style(Tone::Muted))),
            None => child,
        }
    } else {
        child
    }
}

/// The spans of HTML from position `i` on, in `style`, up to the closing
/// tag `stop` (or the end), after the spans `acc` and the pending `text`;
/// and the position after that closing tag. Tags are dropped, their
/// content styled by `spec_merge_style`; `<br>` gives a line break;
/// entities are decoded.
pub open spec fn html_spans_from(
    s: Seq<char>,
    i: int,
    style: TextStyle,
    stop: Option<Seq<char>>,
    text: Seq<char>,
    acc: Seq<(Seq<char>, TextStyle)>,
) -> (Seq<(Seq<char>, TextStyle)>, int)
    decreases (if 0 <= i < s.len() { s.len() - i } else { 0 }),
{
    if i < 0 || i >= s.len() {
        (flush_text(acc, text, style), i)
    } else if s[i] == '<' {
        let acc1 = flush_text(acc, text, style);
        let (tag, closing, self_closing, end0) = spec_parse_tag(s, i);
        let end = if end0 > i { end0 } else { i + 1 };
        if tag.len() == 0 {
            html_spans_from(s, end, style, stop, seq![], acc1)
        } else if closing {
            if stop == Some(tag) {
                (acc1, end)
            } else {
                html_spans_from(s, end, style, stop, seq![], acc1)
            }
        } else if self_closing || spec_void_tag(tag) {
            let acc2 = if tag == "br"@ {
                acc1.push(("\n"@, tone_style(Tone::Plain)))
            } else {
                acc1
            };
            html_spans_from(s, end, style, stop, seq![], acc2)
        } else {
            let (child, p2) = html_spans_from(s, end, spec_merge_style(tag, style), Some(tag), seq![], seq![]);
            let acc2 = acc1 + element_spans(s, i, end, tag, style, child);
            html_spans_from(s, if p2 > i { p2 } else { i + 1 }, style, stop, seq![], acc2)
        }
    } else if s[i] == '&' {
        let (d, next) = spec_decode_entity(s, i);
        html_spans_from(s, if next > i { next } else { i + 1 }, style, stop, text + d, acc)
    } else {
        html_spans_from(s, i + 1, style, stop, text.push(s[i]), acc)
    }
}

/// The styled spans of inline HTML (see `html_spans_from`).
pub open spec fn spec_html_to_spans(html: Seq<char>) -> Seq<(Seq<char>, TextStyle)> {
    html_spans_from(html, 0, tone_style(Tone::Plain), None, seq![], seq![]).0
}

/// An optional tag name by its view.
pub open spec fn opt_tag_view(o: Option<String>) -> Option<Seq<char>> {
    match o {
        Some(t) => Some(t@),
        None => None,
    }
}

fn flush_span(spans: &mut Vec<StyledSpan>, text: &mut String, style: TextStyle)
    ensures
        spans_view(final(spans)@) == flush_text(spans_view(old(spans)@), old(text)@, style),
        final(text)@ == Seq::<char>::empty(),
{
    if text.as_str().unicode_len() > 0 {
        let mut t = String::new();
        std::mem::swap(&mut t, text);
        let ghost before = spans_view(spans@);
        spans.push(StyledSpan { text: t, style: style });
        proof {
            assert(spans_view(spans@) =~= before.push((t@, style)));
        }
    }
}

fn element_spans_exec(
    chars: &Vec<char>,
    i: usize,
    end: usize,
    tag: &str,
    style: TextStyle,
    child: Vec<StyledSpan>,
) -> (r: Vec<StyledSpan>)
    requires
        i < end <= chars.len(),
    ensures
        spans_view(r@) == element_spans(chars@, i as int, end as int, tag@, style, spans_view(child@)),
{
    if str_eq(tag, "sup") || str_eq(tag, "sub") {
        let inner = joined_text(&child);
        let sup = str_eq(tag, "sup");
        let conv = if sup { to_superscript(inner.as_str()) } else { to_subscript(inner.as_str()) };
        let converted = match conv {
            Some(x) => x,
            None => {
                let mut m = String::new();
                push_char(&mut m, if sup { '^' } else { '_' });
                m.append("(");
                m.append(inner.as_str());
                m.append(")");
                m
            },
        };
        let mut out: Vec<StyledSpan> = Vec::new();
        out.push(StyledSpan { text: converted, style: style });
        proof {
            assert(spans_view(out@) =~= seq![(converted@, style)]);
        }
        out
    } else if str_eq(tag, "a") {
        let raw = string_of_range(chars, i, end);
        let mut out = child;
        match extract_href(raw.as_str()) {
            Some(h) => {
                let mut m = String::from_str(" (");
                m.append(h.as_str());
                m.append(")");
                let ghost before = spans_view(out@);
                out.push(StyledSpan { text: m, style: plain_style(Tone::Muted) });
                proof {
                    assert(spans_view(out@) =~= before.push((m@, tone_style(Tone::Muted))));
                }
            },
            None => {},
        }
        out
    } else {
        child
    }
}

fn parse_content(chars: &Vec<char>, pos: &mut usize, style: TextStyle, stop: Option<String>) -> (r: Vec<StyledSpan>)
    requires
        *old(pos) <= chars.len(),
    ensures
        (spans_view(r@), *final(pos) as int) == html_spans_from(
            chars@,
            *old(pos) as int,
            style,
            opt_tag_view(stop),
            seq![],
            seq![],
        ),
        *old(pos) <= *final(pos) <= chars.len(),
    decreases chars.len() - *old(pos),
{
    let ghost s = chars@;
    let ghost p0 = *pos as int;
    let ghost stop_v = opt_tag_view(stop);
    let mut spans: Vec<StyledSpan> = Vec::new();
    let mut text = String::new();
    proof {
        assert(spans_view(spans@) =~= Seq::<(Seq<char>, TextStyle)>::empty());
        assert(text@ =~= Seq::<char>::empty());
    }
    while *pos < chars.len()
        invariant
            s == chars@,
            p0 == *old(pos) as int,
            p0 <= *pos <= chars.len(),
            stop_v == opt_tag_view(stop),
            html_spans_from(s, p0, style, stop_v, seq![], seq![])
                == html_spans_from(s, *pos as int, style, stop_v, text@, spans_view(spans@)),
        decreases chars.len() - *pos,
    {
        let i = *pos;
        if chars[i] == '<' {
            flush_span(&mut spans, &mut text, style);
            let (tag, is_closing, self_closing, end) = parse_tag(chars, i);
            *pos = end;
            if tag.as_str().unicode_len() == 0 {
            } else if is_closing {
                let matches_stop = match &stop {
                    Some(st) => str_eq(st.as_str(), tag.as_str()),
                    None => false,
                };
                if matches_stop {
                    return spans;
                }
            } else if self_closing || is_void_tag(tag.as_str()) {
                if str_eq(tag.as_str(), "br") {
                    let ghost before = spans_view(spans@);
                    spans.push(StyledSpan { text: String::from_str("\n"), style: plain_style(Tone::Plain) });
                    proof {
                        assert(spans_view(spans@) =~= before.push(("\n"@, tone_style(Tone::Plain))));
                    }
                }
            } else {
                let child_style = merge_style(tag.as_str(), style);
                let child = parse_content(chars, pos, child_style, Some(tag.clone()));
                let more = element_spans_exec(chars, i, end, tag.as_str(), style, child);
                extend_spans(&mut spans, more);
            }
        } else if chars[i] == '&' {
            let (decoded, next) = decode_entity(chars, i);
            text.append(decoded.as_str());
            *pos = next;
        } else {
            push_char(&mut text, chars[i]);
            *pos = i + 1;
        }
    }
    flush_span(&mut spans, &mut text, style);
    spans
}

/// Inline HTML as styled spans (see `spec_html_to_spans`).
pub fn html_to_spans(html: &str) -> (r: Vec<StyledSpan>)
    ensures
        spans_view(r@) == spec_html_to_spans(html@),
{
    let chars = chars_of(html);
    let mut pos: usize = 0;
    parse_content(&chars, &mut pos, plain_style(Tone::Plain), None)
}

/// Characters outside tags and entities are copied to the text one by one.
proof fn lemma_plain_run(s: Seq<char>, i: int, j: int, acc: Seq<char>)
    requires
        0 <= i <= j <= s.len(),
        forall|k: int| i <= k < j ==> #[trigger] s[k] != '<' && s[k] != '&',
    ensures
        html_text_from(s, i, acc) == html_text_from(s, j, acc + s.subrange(i, j)),
    decreases j - i,
{
    if i < j {
        lemma_plain_run(s, i + 1, j, acc.push(s[i]));
        assert(acc.push(s[i]) + s.subrange(i + 1, j) =~= acc + s.subrange(i, j));
    } else {
        assert(acc + s.subrange(i, j) =~= acc);
    }
}

proof fn lemma_alnum_run(s: Seq<char>, i: int, k: int)
    requires
        0 <= i <= k < s.len(),
        forall|j: int| i <= j < k ==> is_ascii_alnum(#[trigger] s[j]),
        !is_ascii_alnum(s[k]),
    ensures
        alnum_end(s, i) == k,
    decreases k - i,
{
    if i < k {
        lemma_alnum_run(s, i + 1, k);
    }
}

/// A lower-case ASCII letter or a digit.
spec fn is_tag_char(c: char) -> bool {
    ('a' <= c && c <= 'z') || ('0' <= c && c <= '9')
}

/// An opening block tag between two runs of plain text puts a line break
/// between them.
proof fn lemma_block_tag_line(a: Seq<char>, t: Seq<char>, b: Seq<char>)
    requires
        a.len() > 0,
        a.last() != '\n',
        forall|k: int| 0 <= k < a.len() ==> #[trigger] a[k] != '<' && a[k] != '&',
        forall|k: int| 0 <= k < b.len() ==> #[trigger] b[k] != '<' && b[k] != '&',
        t.len() > 0,
        forall|k: int| 0 <= k < t.len() ==> is_tag_char(#[trigger] t[k]),
        spec_block_tag(t),
    ensures
        spec_html_to_text(a + seq!['<'] + t + seq!['>'] + b) == a.push('\n') + b,
{
    let s = a + seq!['<'] + t + seq!['>'] + b;
    let p = a.len() as int;
    let open = p + 1;
    let close = open + t.len();
    assert forall|k: int| 0 <= k < p implies #[trigger] s[k] != '<' && s[k] != '&' by {
        assert(s[k] == a[k]);
    }
    lemma_plain_run(s, 0, p, seq![]);
    assert(Seq::<char>::empty() + s.subrange(0, p) =~= a);
    assert(s[p] == '<');
    assert(s[open] == t[0]);
    assert(is_tag_char(t[0]));
    assert forall|j: int| open <= j < close implies is_ascii_alnum(#[trigger] s[j]) by {
        assert(s[j] == t[j - open]);
        assert(is_tag_char(t[j - open]));
    }
    assert(s[close] == '>');
    lemma_alnum_run(s, open, close);
    assert(lead_end(s, open) == open);
    assert(next_char(s, '>', close) == close);
    assert(s.subrange(open, close).map_values(|c: char| ascii_lower(c)) =~= t) by {
        assert forall|j: int| 0 <= j < t.len() implies s.subrange(open, close).map_values(
            |c: char| ascii_lower(c),
        )[j] == t[j] by {
            assert(s[open + j] == t[j]);
            assert(is_tag_char(t[j]));
        }
    }
    let parsed = spec_parse_tag(s, p);
    assert(parsed.0 == t);
    assert(!parsed.1);
    assert(parsed.3 == close + 1);
    assert(html_text_from(s, p, a) == html_text_from(s, close + 1, a.push('\n')));
    assert forall|k: int| close + 1 <= k < s.len() implies #[trigger] s[k] != '<' && s[k] != '&' by {
        assert(s[k] == b[k - close - 1]);
    }
    lemma_plain_run(s, close + 1, s.len() as int, a.push('\n'));
    assert(s.subrange(close + 1, s.len() as int) =~= b);
}

/// Each block-level tag starts a new line: between two runs of plain text
/// (no `<` or `&`, the first non-empty and not ending in a line break),
/// `<p>`, `<div>`, `<br>`, `<hr>`, `<li>`, `<tr>`, `<h1>`..`<h6>`, `<ul>`,
/// `<ol>`, `<table>`, `<thead>`, `<tbody>`, `<blockquote>`, `<pre>`,
/// `<section>`, `<article>`, `<header>`, `<footer>`, `<nav>`, `<aside>`,
/// `<figure>`, `<figcaption>`, `<details>` and `<summary>` each become one
/// line break.
pub proof fn lemma_block_tags_break_lines(a: Seq<char>, b: Seq<char>)
    requires
        a.len() > 0,
        a.last() != '\n',
        forall|k: int| 0 <= k < a.len() ==> #[trigger] a[k] != '<' && a[k] != '&',
        forall|k: int| 0 <= k < b.len() ==> #[trigger] b[k] != '<' && b[k] != '&',
    ensures
        spec_html_to_text(a + seq!['<'] + seq!['p'] + seq!['>'] + b) == a.push('\n') + b,
        spec_html_to_text(a + seq!['<'] + seq!['d', 'i', 'v'] + seq!['>'] + b) == a.push('\n') + b,
        spec_html_to_text(a + seq!['<'] + seq!['b', 'r'] + seq!['>'] + b) == a.push('\n') + b,
        spec_html_to_text(a + seq!['<'] + seq!['h', 'r'] + seq!['>'] + b) == a.push('\n') + b,
        spec_html_to_text(a + seq!['<'] + seq!['l', 'i'] + seq!['>'] + b) == a.push('\n') + b,
        spec_html_to_text(a + seq!['<'] + seq!['t', 'r'] + seq!['>'] + b) == a.push('\n') + b,
        spec_html_to_text(a + seq!['<'] + seq!['h', '1'] + seq!['>'] + b) == a.push('\n') + b,
        spec_html_to_text(a + seq!['<'] + seq!['h', '2'] + seq!['>'] + b) == a.push('\n') + b,
        spec_html_to_text(a + seq!['<'] + seq!['h', '3'] + seq!['>'] + b) == a.push('\n') + b,
        spec_html_to_text(a + seq!['<'] + seq!['h', '4'] + seq!['>'] + b) == a.push('\n') + b,
        spec_html_to_text(a + seq!['<'] + seq!['h', '5'] + seq!['>'] + b) == a.push('\n') + b,
        spec_html_to_text(a + seq!['<'] + seq!['h', '6'] + seq!['>'] + b) == a.push('\n') + b,
        spec_html_to_text(a + seq!['<'] + seq!['u', 'l'] + seq!['>'] + b) == a.push('\n') + b,
        spec_html_to_text(a + seq!['<'] + seq!['o', 'l'] + seq!['>'] + b) == a.push('\n') + b,
        spec_html_to_text(a + seq!['<'] + seq!['t', 'a', 'b', 'l', 'e'] + seq!['>'] + b) == a.push('\n') + b,
        spec_html_to_text(a + seq!['<'] + seq!['t', 'h', 'e', 'a', 'd'] + seq!['>'] + b) == a.push('\n') + b,
        spec_html_to_text(a + seq!['<'] + seq!['t', 'b', 'o', 'd', 'y'] + seq!['>'] + b) == a.push('\n') + b,
        spec_html_to_text(a + seq!['<'] + seq!['b', 'l', 'o', 'c', 'k', 'q', 'u', 'o', 't', 'e'] + seq!['>'] + b) == a.push('\n') + b,
        spec_html_to_text(a + seq!['<'] + seq!['p', 'r', 'e'] + seq!['>'] + b) == a.push('\n') + b,
        spec_html_to_text(a + seq!['<'] + seq!['s', 'e', 'c', 't', 'i', 'o', 'n'] + seq!['>'] + b) == a.push('\n') + b,
        spec_html_to_text(a + seq!['<'] + seq!['a', 'r', 't', 'i', 'c', 'l', 'e'] + seq!['>'] + b) == a.push('\n') + b,
        spec_html_to_text(a + seq!['<'] + seq!['h', 'e', 'a', 'd', 'e', 'r'] + seq!['>'] + b) == a.push('\n') + b,
        spec_html_to_text(a + seq!['<'] + seq!['f', 'o', 'o', 't', 'e', 'r'] + seq!['>'] + b) == a.push('\n') + b,
        spec_html_to_text(a + seq!['<'] + seq!['n', 'a', 'v'] + seq!['>'] + b) == a.push('\n') + b,
        spec_html_to_text(a + seq!['<'] + seq!['a', 's', 'i', 'd', 'e'] + seq!['>'] + b) == a.push('\n') + b,
        spec_html_to_text(a + seq!['<'] + seq!['f', 'i', 'g', 'u', 'r', 'e'] + seq!['>'] + b) == a.push('\n') + b,
        spec_html_to_text(a + seq!['<'] + seq!['f', 'i', 'g', 'c', 'a', 'p', 't', 'i', 'o', 'n'] + seq!['>'] + b) == a.push('\n') + b,
        spec_html_to_text(a + seq!['<'] + seq!['d', 'e', 't', 'a', 'i', 'l', 's'] + seq!['>'] + b) == a.push('\n') + b,
        spec_html_to_text(a + seq!['<'] + seq!['s', 'u', 'm', 'm', 'a', 'r', 'y'] + seq!['>'] + b) == a.push('\n') + b,
{
    reveal_strlit("p");
    reveal_strlit("div");
    reveal_strlit("br");
    reveal_strlit("hr");
    reveal_strlit("li");
    reveal_strlit("tr");
    reveal_strlit("h1");
    reveal_strlit("h2");
    reveal_strlit("h3");
    reveal_strlit("h4");
    reveal_strlit("h5");
    reveal_strlit("h6");
    reveal_strlit("ul");
    reveal_strlit("ol");
    reveal_strlit("table");
    reveal_strlit("thead");
    reveal_strlit("tbody");
    reveal_strlit("blockquote");
    reveal_strlit("pre");
    reveal_strlit("section");
    reveal_strlit("article");
    reveal_strlit("header");
    reveal_strlit("footer");
    reveal_strlit("nav");
    reveal_strlit("aside");
    reveal_strlit("figure");
    reveal_strlit("figcaption");
    reveal_strlit("details");
    reveal_strlit("summary");
    assert(spec_block_tag(seq!['p'])) by { assert(seq!['p'] =~= "p"@); }
    lemma_block_tag_line(a, seq!['p'], b);
    assert(spec_block_tag(seq!['d', 'i', 'v'])) by { assert(seq!['d', 'i', 'v'] =~= "div"@); }
    lemma_block_tag_line(a, seq!['d', 'i', 'v'], b);
    assert(spec_block_tag(seq!['b', 'r'])) by { assert(seq!['b', 'r'] =~= "br"@); }
    lemma_block_tag_line(a, seq!['b', 'r'], b);
    assert(spec_block_tag(seq!['h', 'r'])) by { assert(seq!['h', 'r'] =~= "hr"@); }
    lemma_block_tag_line(a, seq!['h', 'r'], b);
    assert(spec_block_tag(seq!['l', 'i'])) by { assert(seq!['l', 'i'] =~= "li"@); }
    lemma_block_tag_line(a, seq!['l', 'i'], b);
    assert(spec_block_tag(seq!['t', 'r'])) by { assert(seq!['t', 'r'] =~= "tr"@); }
    lemma_block_tag_line(a, seq!['t', 'r'], b);
    assert(spec_block_tag(seq!['h', '1'])) by { assert(seq!['h', '1'] =~= "h1"@); }
    lemma_block_tag_line(a, seq!['h', '1'], b);
    assert(spec_block_tag(seq!['h', '2'])) by { assert(seq!['h', '2'] =~= "h2"@); }
    lemma_block_tag_line(a, seq!['h', '2'], b);
    assert(spec_block_tag(seq!['h', '3'])) by { assert(seq!['h', '3'] =~= "h3"@); }
    lemma_block_tag_line(a, seq!['h', '3'], b);
    assert(spec_block_tag(seq!['h', '4'])) by { assert(seq!['h', '4'] =~= "h4"@); }
    lemma_block_tag_line(a, seq!['h', '4'], b);
    assert(spec_block_tag(seq!['h', '5'])) by { assert(seq!['h', '5'] =~= "h5"@); }
    lemma_block_tag_line(a, seq!['h', '5'], b);
    assert(spec_block_tag(seq!['h', '6'])) by { assert(seq!['h', '6'] =~= "h6"@); }
    lemma_block_tag_line(a, seq!['h', '6'], b);
    assert(spec_block_tag(seq!['u', 'l'])) by { assert(seq!['u', 'l'] =~= "ul"@); }
    lemma_block_tag_line(a, seq!['u', 'l'], b);
    assert(spec_block_tag(seq!['o', 'l'])) by { assert(seq!['o', 'l'] =~= "ol"@); }
    lemma_block_tag_line(a, seq!['o', 'l'], b);
    assert(spec_block_tag(seq!['t', 'a', 'b', 'l', 'e'])) by { assert(seq!['t', 'a', 'b', 'l', 'e'] =~= "table"@); }
    lemma_block_tag_line(a, seq!['t', 'a', 'b', 'l', 'e'], b);
    assert(spec_block_tag(seq!['t', 'h', 'e', 'a', 'd'])) by { assert(seq!['t', 'h', 'e', 'a', 'd'] =~= "thead"@); }
    lemma_block_tag_line(a, seq!['t', 'h', 'e', 'a', 'd'], b);
    assert(spec_block_tag(seq!['t', 'b', 'o', 'd', 'y'])) by { assert(seq!['t', 'b', 'o', 'd', 'y'] =~= "tbody"@); }
    lemma_block_tag_line(a, seq!['t', 'b', 'o', 'd', 'y'], b);
    assert(spec_block_tag(seq!['b', 'l', 'o', 'c', 'k', 'q', 'u', 'o', 't', 'e'])) by { assert(seq!['b', 'l', 'o', 'c', 'k', 'q', 'u', 'o', 't', 'e'] =~= "blockquote"@); }
    lemma_block_tag_line(a, seq!['b', 'l', 'o', 'c', 'k', 'q', 'u', 'o', 't', 'e'], b);
    assert(spec_block_tag(seq!['p', 'r', 'e'])) by { assert(seq!['p', 'r', 'e'] =~= "pre"@); }
    lemma_block_tag_line(a, seq!['p', 'r', 'e'], b);
    assert(spec_block_tag(seq!['s', 'e', 'c', 't', 'i', 'o', 'n'])) by { assert(seq!['s', 'e', 'c', 't', 'i', 'o', 'n'] =~= "section"@); }
    lemma_block_tag_line(a, seq!['s', 'e', 'c', 't', 'i', 'o', 'n'], b);
    assert(spec_block_tag(seq!['a', 'r', 't', 'i', 'c', 'l', 'e'])) by { assert(seq!['a', 'r', 't', 'i', 'c', 'l', 'e'] =~= "article"@); }
    lemma_block_tag_line(a, seq!['a', 'r', 't', 'i', 'c', 'l', 'e'], b);
    assert(spec_block_tag(seq!['h', 'e', 'a', 'd', 'e', 'r'])) by { assert(seq!['h', 'e', 'a', 'd', 'e', 'r'] =~= "header"@); }
    lemma_block_tag_line(a, seq!['h', 'e', 'a', 'd', 'e', 'r'], b);
    assert(spec_block_tag(seq!['f', 'o', 'o', 't', 'e', 'r'])) by { assert(seq!['f', 'o', 'o', 't', 'e', 'r'] =~= "footer"@); }
    lemma_block_tag_line(a, seq!['f', 'o', 'o', 't', 'e', 'r'], b);
    assert(spec_block_tag(seq!['n', 'a', 'v'])) by { assert(seq!['n', 'a', 'v'] =~= "nav"@); }
    lemma_block_tag_line(a, seq!['n', 'a', 'v'], b);
    assert(spec_block_tag(seq!['a', 's', 'i', 'd', 'e'])) by { assert(seq!['a', 's', 'i', 'd', 'e'] =~= "aside"@); }
    lemma_block_tag_line(a, seq!['a', 's', 'i', 'd', 'e'], b);
    assert(spec_block_tag(seq!['f', 'i', 'g', 'u', 'r', 'e'])) by { assert(seq!['f', 'i', 'g', 'u', 'r', 'e'] =~= "figure"@); }
    lemma_block_tag_line(a, seq!['f', 'i', 'g', 'u', 'r', 'e'], b);
    assert(spec_block_tag(seq!['f', 'i', 'g', 'c', 'a', 'p', 't', 'i', 'o', 'n'])) by { assert(seq!['f', 'i', 'g', 'c', 'a', 'p', 't', 'i', 'o', 'n'] =~= "figcaption"@); }
    lemma_block_tag_line(a, seq!['f', 'i', 'g', 'c', 'a', 'p', 't', 'i', 'o', 'n'], b);
    assert(spec_block_tag(seq!['d', 'e', 't', 'a', 'i', 'l', 's'])) by { assert(seq!['d', 'e', 't', 'a', 'i', 'l', 's'] =~= "details"@); }
    lemma_block_tag_line(a, seq!['d', 'e', 't', 'a', 'i', 'l', 's'], b);
    assert(spec_block_tag(seq!['s', 'u', 'm', 'm', 'a', 'r', 'y'])) by { assert(seq!['s', 'u', 'm', 'm', 'a', 'r', 'y'] =~= "summary"@); }
    lemma_block_tag_line(a, seq!['s', 'u', 'm', 'm', 'a', 'r', 'y'], b);
}

} // verus!
