//! Character-level helpers shared by the text converters and parsers.
//!
//! Strings are reasoned about through their view, the sequence of their
//! Unicode scalar values (`Seq<char>`).

use vstd::prelude::*;

verus! {

/// ASCII letter (`char::is_ascii_alphabetic`).
pub open spec fn is_ascii_alpha(c: char) -> bool {
    ('a' <= c && c <= 'z') || ('A' <= c && c <= 'Z')
}

/// ASCII decimal digit (`char::is_ascii_digit`).
pub open spec fn is_ascii_digit(c: char) -> bool {
    '0' <= c && c <= '9'
}

/// ASCII letter or digit (`char::is_ascii_alphanumeric`).
pub open spec fn is_ascii_alnum(c: char) -> bool {
    is_ascii_alpha(c) || is_ascii_digit(c)
}

/// ASCII upper-case letters mapped to lower case, everything else unchanged
/// (`char::to_ascii_lowercase`).
pub open spec fn ascii_lower(c: char) -> char {
    if 'A' <= c && c <= 'Z' {
        ((c as u32) + 32) as char
    } else {
        c
    }
}

/// The Unicode `White_Space` property (`char::is_whitespace`).
pub open spec fn is_ws(c: char) -> bool {
    c == ' ' || ('\t' <= c && c <= '\r') || c == '\u{85}' || c == '\u{a0}' || c == '\u{1680}'
        || ('\u{2000}' <= c && c <= '\u{200a}') || c == '\u{2028}' || c == '\u{2029}'
        || c == '\u{202f}' || c == '\u{205f}' || c == '\u{3000}'
}

pub fn is_ascii_alpha_exec(c: char) -> (r: bool)
    ensures
        r == is_ascii_alpha(c),
{
    ('a' <= c && c <= 'z') || ('A' <= c && c <= 'Z')
}

pub fn is_ascii_digit_exec(c: char) -> (r: bool)
    ensures
        r == is_ascii_digit(c),
{
    '0' <= c && c <= '9'
}

pub fn is_ascii_alnum_exec(c: char) -> (r: bool)
    ensures
        r == is_ascii_alnum(c),
{
    is_ascii_alpha_exec(c) || is_ascii_digit_exec(c)
}

pub fn ascii_lower_exec(c: char) -> (r: char)
    ensures
        r == ascii_lower(c),
{
    if 'A' <= c && c <= 'Z' {
        let b: u8 = (c as u32 + 32) as u8;
        b as char
    } else {
        c
    }
}

pub fn is_ws_exec(c: char) -> (r: bool)
    ensures
        r == is_ws(c),
{
    c == ' ' || ('\t' <= c && c <= '\r') || c == '\u{85}' || c == '\u{a0}' || c == '\u{1680}'
        || ('\u{2000}' <= c && c <= '\u{200a}') || c == '\u{2028}' || c == '\u{2029}'
        || c == '\u{202f}' || c == '\u{205f}' || c == '\u{3000}'
}

/// Appends one character to a string (`String::push`).
#[verifier::external_body]
pub fn push_char(s: &mut String, c: char)
    ensures
        final(s)@ == old(s)@.push(c),
{
    s.push(c);
}

/// The characters of a string, in order.
pub fn chars_of(s: &str) -> (res: Vec<char>)
    ensures
        res@ == s@,
{
    let mut out: Vec<char> = Vec::new();
    for c in it: s.chars()
        invariant
            out@ == it.seq().take(it.index() as int),
            it.seq() == s@,
    {
        out.push(c);
    }
    out
}

/// A string made of the characters `v[from..to]`.
pub fn string_of_range(v: &Vec<char>, from: usize, to: usize) -> (res: String)
    requires
        from <= to <= v.len(),
    ensures
        res@ == v@.subrange(from as int, to as int),
{
    let mut out = String::new();
    let mut i = from;
    while i < to
        invariant
            from <= i <= to <= v.len(),
            out@ == v@.subrange(from as int, i as int),
        decreases to - i,
    {
        push_char(&mut out, v[i]);
        proof {
            assert(v@.subrange(from as int, i + 1) =~= v@.subrange(from as int, i as int).push(v@[i as int]));
        }
        i += 1;
    }
    out
}

/// A string holding the single character `c`.
pub fn string_of_char(c: char) -> (res: String)
    ensures
        res@ == seq![c],
{
    let mut out = String::new();
    push_char(&mut out, c);
    proof { assert(out@ =~= seq![c]); }
    out
}

/// Whether two strings hold the same characters.
pub fn str_eq(a: &str, b: &str) -> (res: bool)
    ensures
        res == (a@ == b@),
{
    let n = a.unicode_len();
    if n != b.unicode_len() {
        return false;
    }
    let mut i: usize = 0;
    while i < n
        invariant
            n == a@.len(),
            n == b@.len(),
            i <= n,
            forall|j: int| 0 <= j < i ==> a@[j] == b@[j],
        decreases n - i,
    {
        if a.get_char(i) != b.get_char(i) {
            return false;
        }
        i += 1;
    }
    proof {
        assert(a@ =~= b@);
    }
    true
}

/// Whether `v[at..]` starts with the characters of `p`.
pub open spec fn has_at(v: Seq<char>, at: int, p: Seq<char>) -> bool {
    0 <= at && at + p.len() <= v.len() && v.subrange(at, at + p.len()) == p
}

/// Whether `v[at..]` starts with the characters of `p`.
pub fn has_at_exec(v: &Vec<char>, at: usize, p: &str) -> (res: bool)
    ensures
        res == has_at(v@, at as int, p@),
{
    let n = p.unicode_len();
    if at > v.len() || n > v.len() - at {
        return false;
    }
    let mut i: usize = 0;
    while i < n
        invariant
            n == p@.len(),
            at + n <= v.len(),
            i <= n,
            forall|j: int| 0 <= j < i ==> v@[at + j] == p@[j],
        decreases n - i,
    {
        if v[at + i] != p.get_char(i) {
            proof {
                assert(v@.subrange(at as int, at + n)[i as int] != p@[i as int]);
            }
            return false;
        }
        i += 1;
    }
    proof {
        assert(v@.subrange(at as int, at + n) =~= p@);
    }
    true
}

/// Whether the string holds the character `c`.
pub fn contains_char(s: &str, c: char) -> (res: bool)
    ensures
        res == s@.contains(c),
{
    for x in it: s.chars()
        invariant
            it.seq() == s@,
            forall|j: int| 0 <= j < it.index() ==> s@[j] != c,
    {
        if x == c {
            proof {
                assert(s@[it.index() as int] == c);
            }
            return true;
        }
    }
    false
}

/// Index of the first non-whitespace character at or after `i`.
pub open spec fn lead_end(s: Seq<char>, i: int) -> int
    decreases s.len() - i,
{
    if 0 <= i < s.len() && is_ws(s[i]) {
        lead_end(s, i + 1)
    } else {
        i
    }
}

/// End of `s[lo..j]` once trailing whitespace is removed.
pub open spec fn trail_end(s: Seq<char>, j: int, lo: int) -> int
    decreases j - lo,
{
    if lo < j && j <= s.len() && is_ws(s[j - 1]) {
        trail_end(s, j - 1, lo)
    } else {
        j
    }
}

/// `s` without leading whitespace (`str::trim_start`).
pub open spec fn trim_start(s: Seq<char>) -> Seq<char> {
    s.subrange(lead_end(s, 0), s.len() as int)
}

/// `s` without trailing whitespace (`str::trim_end`).
pub open spec fn trim_end(s: Seq<char>) -> Seq<char> {
    s.subrange(0, trail_end(s, s.len() as int, 0))
}

/// `s` without leading and trailing whitespace (`str::trim`).
pub open spec fn trim(s: Seq<char>) -> Seq<char> {
    s.subrange(lead_end(s, 0), trail_end(s, s.len() as int, lead_end(s, 0)))
}

pub proof fn lemma_lead_end(s: Seq<char>, i: int)
    requires
        0 <= i <= s.len(),
    ensures
        i <= lead_end(s, i) <= s.len(),
        forall|k: int| i <= k < lead_end(s, i) ==> is_ws(#[trigger] s[k]),
        lead_end(s, i) < s.len() ==> !is_ws(s[lead_end(s, i)]),
    decreases s.len() - i,
{
    if i < s.len() && is_ws(s[i]) {
        lemma_lead_end(s, i + 1);
    }
}

pub proof fn lemma_trail_end(s: Seq<char>, j: int, lo: int)
    requires
        0 <= lo <= j <= s.len(),
    ensures
        lo <= trail_end(s, j, lo) <= j,
        forall|k: int| trail_end(s, j, lo) <= k < j ==> is_ws(#[trigger] s[k]),
        trail_end(s, j, lo) > lo ==> !is_ws(s[trail_end(s, j, lo) - 1]),
    decreases j - lo,
{
    if lo < j && is_ws(s[j - 1]) {
        lemma_trail_end(s, j - 1, lo);
    }
}

/// Index of the first non-whitespace character of `v[from..to]` (or `to`).
pub fn skip_ws(v: &Vec<char>, from: usize, to: usize) -> (r: usize)
    requires
        from <= to <= v.len(),
    ensures
        from <= r <= to,
        to == v.len() ==> r as int == lead_end(v@, from as int),
        forall|k: int| from <= k < r ==> is_ws(#[trigger] v@[k]),
        r < to ==> !is_ws(v@[r as int]),
{
    let mut i = from;
    while i < to && is_ws_exec(v[i])
        invariant
            from <= i <= to <= v.len(),
            to == v.len() ==> lead_end(v@, from as int) == lead_end(v@, i as int),
            forall|k: int| from <= k < i ==> is_ws(#[trigger] v@[k]),
        decreases to - i,
    {
        i += 1;
    }
    i
}

/// End of `v[from..to]` without its trailing whitespace.
pub fn back_ws(v: &Vec<char>, from: usize, to: usize) -> (r: usize)
    requires
        from <= to <= v.len(),
    ensures
        from <= r <= to,
        r as int == trail_end(v@, to as int, from as int),
{
    let mut j = to;
    while j > from && is_ws_exec(v[j - 1])
        invariant
            from <= j <= to <= v.len(),
            trail_end(v@, to as int, from as int) == trail_end(v@, j as int, from as int),
        decreases j - from,
    {
        j -= 1;
    }
    j
}

/// `s` without leading and trailing whitespace.
pub fn trim_str(s: &str) -> (r: String)
    ensures
        r@ == trim(s@),
{
    let v = chars_of(s);
    let a = skip_ws(&v, 0, v.len());
    let b = back_ws(&v, a, v.len());
    string_of_range(&v, a, b)
}

/// `s` without leading whitespace.
pub fn trim_start_str(s: &str) -> (r: String)
    ensures
        r@ == trim_start(s@),
{
    let v = chars_of(s);
    let a = skip_ws(&v, 0, v.len());
    string_of_range(&v, a, v.len())
}

/// `s` without trailing whitespace.
pub fn trim_end_str(s: &str) -> (r: String)
    ensures
        r@ == trim_end(s@),
{
    let v = chars_of(s);
    let b = back_ws(&v, 0, v.len());
    string_of_range(&v, 0, b)
}

/// Whether `s` starts with `p` (`str::starts_with`).
pub open spec fn starts_with(s: Seq<char>, p: Seq<char>) -> bool {
    p.len() <= s.len() && s.subrange(0, p.len() as int) == p
}

/// Whether `s` ends with `p` (`str::ends_with`).
pub open spec fn ends_with(s: Seq<char>, p: Seq<char>) -> bool {
    p.len() <= s.len() && s.subrange(s.len() - p.len(), s.len() as int) == p
}

/// `s` without the prefix `p`, when it has it (`str::strip_prefix`).
pub open spec fn strip_prefix(s: Seq<char>, p: Seq<char>) -> Option<Seq<char>> {
    if starts_with(s, p) {
        Some(s.subrange(p.len() as int, s.len() as int))
    } else {
        None
    }
}

pub fn starts_with_str(s: &str, p: &str) -> (r: bool)
    ensures
        r == starts_with(s@, p@),
{
    let v = chars_of(s);
    let r = has_at_exec(&v, 0, p);
    r
}

pub fn ends_with_str(s: &str, p: &str) -> (r: bool)
    ensures
        r == ends_with(s@, p@),
{
    let v = chars_of(s);
    let n = p.unicode_len();
    if n > v.len() {
        return false;
    }
    has_at_exec(&v, v.len() - n, p)
}

pub fn strip_prefix_str(s: &str, p: &str) -> (r: Option<String>)
    ensures
        r matches Some(x) ==> strip_prefix(s@, p@) == Some(x@),
        r is None ==> strip_prefix(s@, p@) is None,
{
    let v = chars_of(s);
    if has_at_exec(&v, 0, p) {
        Some(string_of_range(&v, p.unicode_len(), v.len()))
    } else {
        None
    }
}

/// Pieces of `s[0..i]` split at `c`: the finished pieces and the open one.
pub open spec fn split_prefix(s: Seq<char>, c: char, i: int) -> (Seq<Seq<char>>, Seq<char>)
    decreases i,
{
    if i <= 0 || i > s.len() {
        (seq![], seq![])
    } else {
        let (done, cur) = split_prefix(s, c, i - 1);
        if s[i - 1] == c {
            (done.push(cur), seq![])
        } else {
            (done, cur.push(s[i - 1]))
        }
    }
}

/// `s` split at every `c` (`str::split` with a character); never empty.
pub open spec fn split_on(s: Seq<char>, c: char) -> Seq<Seq<char>> {
    let (done, cur) = split_prefix(s, c, s.len() as int);
    done.push(cur)
}

/// `s` split into lines (`str::lines`): at `\n`, dropping one `\r` before
/// each `\n`, with no empty line after a final `\n`.
pub open spec fn lines(s: Seq<char>) -> Seq<Seq<char>> {
    let parts = split_on(s, '\n');
    let n = parts.len() - 1;
    let body = Seq::new(n as nat, |i: int| strip_cr(parts[i]));
    if parts[n].len() == 0 {
        body
    } else {
        body.push(parts[n])
    }
}

/// A line without one trailing carriage return.
pub open spec fn strip_cr(l: Seq<char>) -> Seq<char> {
    if l.len() > 0 && l[l.len() - 1] == '\r' {
        l.drop_last()
    } else {
        l
    }
}

/// Strings of a vector, by their views.
pub open spec fn views(v: Seq<String>) -> Seq<Seq<char>> {
    v.map_values(|x: String| x@)
}

/// `s` split at every `c`.
pub fn split_str(s: &str, c: char) -> (r: Vec<String>)
    ensures
        views(r@) == split_on(s@, c),
{
    let mut done: Vec<String> = Vec::new();
    let mut cur = String::new();
    for x in it: s.chars()
        invariant
            it.seq() == s@,
            (views(done@), cur@) == split_prefix(s@, c, it.index() as int),
    {
        if x == c {
            let piece = cur;
            done.push(piece);
            cur = String::new();
            proof {
                assert(views(done@) =~= split_prefix(s@, c, it.index() as int).0.push(piece@));
            }
        } else {
            push_char(&mut cur, x);
        }
    }
    let ghost d = done@;
    done.push(cur);
    proof {
        assert(views(done@) =~= views(d).push(cur@));
    }
    done
}

pub fn strip_cr_str(l: String) -> (r: String)
    ensures
        r@ == strip_cr(l@),
{
    let v = chars_of(l.as_str());
    if v.len() > 0 && v[v.len() - 1] == '\r' {
        let r = string_of_range(&v, 0, v.len() - 1);
        proof {
            assert(r@ =~= l@.drop_last());
        }
        r
    } else {
        l
    }
}

/// `s` split into lines.
pub fn lines_of(s: &str) -> (r: Vec<String>)
    ensures
        views(r@) == lines(s@),
{
    let parts = split_str(s, '\n');
    let ghost ps = views(parts@);
    assert(ps.len() == parts@.len());
    let n = parts.len() - 1;
    let mut out: Vec<String> = Vec::new();
    let mut i: usize = 0;
    while i < n
        invariant
            parts.len() == n + 1,
            views(parts@) == ps,
            ps == split_on(s@, '\n'),
            i <= n,
            views(out@) =~= Seq::new(i as nat, |k: int| strip_cr(ps[k])),
        decreases n - i,
    {
        let ghost o = views(out@);
        let l = strip_cr_str(parts[i].clone());
        assert(ps[i as int] == parts@[i as int]@);
        out.push(l);
        proof {
            assert(views(out@) =~= o.push(l@));
            assert(views(out@) =~= Seq::new((i + 1) as nat, |k: int| strip_cr(ps[k])));
        }
        i += 1;
    }
    let last = parts[n].clone();
    if last.unicode_len() == 0 {
        out
    } else {
        let ghost o = views(out@);
        out.push(last);
        proof {
            assert(views(out@) =~= o.push(ps[n as int]));
        }
        out
    }
}

/// Pieces joined with a separator between each two (`[T]::join`).
pub open spec fn join(parts: Seq<Seq<char>>, sep: Seq<char>) -> Seq<char>
    decreases parts.len(),
{
    if parts.len() == 0 {
        seq![]
    } else if parts.len() == 1 {
        parts[0]
    } else {
        join(parts.drop_last(), sep) + sep + parts.last()
    }
}

/// The strings of `parts` joined with `sep` between each two.
pub fn join_str(parts: &Vec<String>, sep: &str) -> (r: String)
    ensures
        r@ == join(views(parts@), sep@),
{
    let mut out = String::new();
    let mut i: usize = 0;
    while i < parts.len()
        invariant
            i <= parts.len(),
            out@ == join(views(parts@).take(i as int), sep@),
        decreases parts.len() - i,
    {
        proof {
            assert(views(parts@).take(i + 1).drop_last() =~= views(parts@).take(i as int));
        }
        if i > 0 {
            out.append(sep);
        }
        out.append(parts[i].as_str());
        proof {
            if i == 0 {
                assert(out@ =~= views(parts@).take(1)[0]);
            }
        }
        i += 1;
    }
    proof {
        assert(views(parts@).take(parts.len() as int) =~= views(parts@));
    }
    out
}

/// Index of the first character other than `c` at or after `i`.
pub open spec fn lead_c(s: Seq<char>, c: char, i: int) -> int
    decreases s.len() - i,
{
    if 0 <= i < s.len() && s[i] == c {
        lead_c(s, c, i + 1)
    } else {
        i
    }
}

/// End of `s[lo..j]` once trailing `c`s are removed.
pub open spec fn trail_c(s: Seq<char>, c: char, j: int, lo: int) -> int
    decreases j - lo,
{
    if lo < j && j <= s.len() && s[j - 1] == c {
        trail_c(s, c, j - 1, lo)
    } else {
        j
    }
}

/// `s` without leading and trailing `c`s (`str::trim_matches` with a character).
pub open spec fn trim_matches(s: Seq<char>, c: char) -> Seq<char> {
    s.subrange(lead_c(s, c, 0), trail_c(s, c, s.len() as int, lead_c(s, c, 0)))
}

/// `s` without leading `c`s (`str::trim_start_matches` with a character).
pub open spec fn trim_start_matches(s: Seq<char>, c: char) -> Seq<char> {
    s.subrange(lead_c(s, c, 0), s.len() as int)
}

pub proof fn lemma_lead_c(s: Seq<char>, c: char, i: int)
    requires
        0 <= i <= s.len(),
    ensures
        i <= lead_c(s, c, i) <= s.len(),
    decreases s.len() - i,
{
    if i < s.len() && s[i] == c {
        lemma_lead_c(s, c, i + 1);
    }
}

pub proof fn lemma_trail_c(s: Seq<char>, c: char, j: int, lo: int)
    requires
        0 <= lo <= j <= s.len(),
    ensures
        lo <= trail_c(s, c, j, lo) <= j,
    decreases j - lo,
{
    if lo < j && s[j - 1] == c {
        lemma_trail_c(s, c, j - 1, lo);
    }
}

/// `s` without leading and trailing `c`s.
pub fn trim_matches_str(s: &str, c: char) -> (r: String)
    ensures
        r@ == trim_matches(s@, c),
{
    let v = chars_of(s);
    let mut a: usize = 0;
    while a < v.len() && v[a] == c
        invariant
            a <= v.len(),
            lead_c(v@, c, 0) == lead_c(v@, c, a as int),
        decreases v.len() - a,
    {
        a += 1;
    }
    let mut b = v.len();
    while b > a && v[b - 1] == c
        invariant
            a <= b <= v.len(),
            trail_c(v@, c, v.len() as int, a as int) == trail_c(v@, c, b as int, a as int),
        decreases b - a,
    {
        b -= 1;
    }
    string_of_range(&v, a, b)
}

/// `s` without leading `c`s.
pub fn trim_start_matches_str(s: &str, c: char) -> (r: String)
    ensures
        r@ == trim_start_matches(s@, c),
{
    let v = chars_of(s);
    let mut a: usize = 0;
    while a < v.len() && v[a] == c
        invariant
            a <= v.len(),
            lead_c(v@, c, 0) == lead_c(v@, c, a as int),
        decreases v.len() - a,
    {
        a += 1;
    }
    string_of_range(&v, a, v.len())
}

/// Views of a sequence of string slices.
pub open spec fn strs_view(v: Seq<&str>) -> Seq<Seq<char>> {
    v.map_values(|x: &str| x@)
}

/// First index at or after `i` where `p` occurs in `s` (`str::find`).
pub open spec fn find_from(s: Seq<char>, p: Seq<char>, i: int) -> Option<int>
    decreases s.len() + 1 - i,
{
    if i < 0 || i + p.len() > s.len() {
        None
    } else if has_at(s, i, p) {
        Some(i)
    } else {
        find_from(s, p, i + 1)
    }
}

/// First index where `p` occurs in `s`.
pub open spec fn find(s: Seq<char>, p: Seq<char>) -> Option<int> {
    find_from(s, p, 0)
}

pub proof fn lemma_find_from(s: Seq<char>, p: Seq<char>, i: int)
    requires
        0 <= i,
    ensures
        find_from(s, p, i) matches Some(k) ==> i <= k && k + p.len() <= s.len() && has_at(s, k, p),
        find_from(s, p, i) is None ==> forall|k: int| i <= k && k + p.len() <= s.len() ==> !has_at(s, k, p),
    decreases s.len() + 1 - i,
{
    if i + p.len() <= s.len() && !has_at(s, i, p) {
        lemma_find_from(s, p, i + 1);
    }
}

/// First index at or after `from` where `p` occurs in `v`.
pub fn find_exec(v: &Vec<char>, p: &str, from: usize) -> (r: Option<usize>)
    ensures
        match r {
            Some(k) => find_from(v@, p@, from as int) == Some(k as int) && k + p@.len() <= v.len(),
            None => find_from(v@, p@, from as int) is None,
        },
{
    let n = p.unicode_len();
    if n == 0 {
        if from <= v.len() {
            proof {
                assert(v@.subrange(from as int, from as int) =~= p@);
            }
            return Some(from);
        }
        return None;
    }
    let mut i = from;
    while i <= v.len() && n <= v.len() - i
        invariant
            n == p@.len(),
            n > 0,
            from <= i,
            find_from(v@, p@, from as int) == find_from(v@, p@, i as int),
        decreases v.len() + 1 - i,
    {
        if has_at_exec(v, i, p) {
            return Some(i);
        }
        i += 1;
    }
    None
}

/// Whether `p` occurs in `s`.
pub fn contains_str(s: &str, p: &str) -> (r: bool)
    ensures
        r == (find(s@, p@) is Some),
{
    let v = chars_of(s);
    find_exec(&v, p, 0).is_some()
}

/// `s` without leading carriage returns and newlines.
pub open spec fn trim_start_newlines(s: Seq<char>) -> Seq<char>
    decreases s.len(),
{
    if s.len() > 0 && (s[0] == '\r' || s[0] == '\n') {
        trim_start_newlines(s.drop_first())
    } else {
        s
    }
}

/// Pieces of `s[start..]` between non-overlapping occurrences of `p`,
/// found left to right (`str::split` with a string pattern).
pub open spec fn split_pat_from(s: Seq<char>, p: Seq<char>, start: int) -> Seq<Seq<char>>
    decreases (if 0 <= start <= s.len() { s.len() + 1 - start } else { 0 }),
{
    if start < 0 || start > s.len() || p.len() == 0 {
        seq![]
    } else {
        match find_from(s, p, start) {
            None => seq![s.subrange(start, s.len() as int)],
            Some(i) => {
                let next = if i + p.len() > start {
                    i + p.len()
                } else {
                    start + 1
                };
                seq![s.subrange(start, i)] + split_pat_from(s, p, next)
            },
        }
    }
}

/// `s` split at every occurrence of the non-empty pattern `p`.
pub open spec fn split_pat(s: Seq<char>, p: Seq<char>) -> Seq<Seq<char>> {
    split_pat_from(s, p, 0)
}

/// `s` with every occurrence of `from` replaced by `to` (`str::replace`).
pub open spec fn replace(s: Seq<char>, from: Seq<char>, to: Seq<char>) -> Seq<char> {
    join(split_pat(s, from), to)
}

/// `s` split at every occurrence of the non-empty pattern `p`.
pub fn split_pat_exec(s: &str, p: &str) -> (r: Vec<String>)
    requires
        p@.len() > 0,
    ensures
        views(r@) == split_pat(s@, p@),
{
    let v = chars_of(s);
    let n = p.unicode_len();
    let mut out: Vec<String> = Vec::new();
    let mut start: usize = 0;
    loop
        invariant
            v@ == s@,
            n == p@.len(),
            n > 0,
            start <= v.len(),
            split_pat(s@, p@) == views(out@) + split_pat_from(v@, p@, start as int),
        decreases v.len() + 1 - start,
    {
        match find_exec(&v, p, start) {
            None => {
                let ghost o = views(out@);
                let piece = string_of_range(&v, start, v.len());
                out.push(piece);
                proof {
                    assert(views(out@) =~= o + split_pat_from(v@, p@, start as int));
                }
                return out;
            },
            Some(i) => {
                proof {
                    lemma_find_from(v@, p@, start as int);
                }
                let ghost o = views(out@);
                let piece = string_of_range(&v, start, i);
                out.push(piece);
                proof {
                    assert(views(out@) =~= o.push(v@.subrange(start as int, i as int)));
                    assert(o + split_pat_from(v@, p@, start as int) =~= views(out@)
                        + split_pat_from(v@, p@, (i + n) as int));
                }
                start = i + n;
            },
        }
    }
}

/// `s` with every occurrence of the non-empty `from` replaced by `to`.
pub fn replace_str(s: &str, from: &str, to: &str) -> (r: String)
    requires
        from@.len() > 0,
    ensures
        r@ == replace(s@, from@, to@),
{
    let parts = split_pat_exec(s, from);
    join_str(&parts, to)
}

/// The parts of `s` before and after its first `c` (`str::split_once`).
pub open spec fn split_once(s: Seq<char>, c: char) -> Option<(Seq<char>, Seq<char>)> {
    match find(s, seq![c]) {
        Some(i) => Some((s.subrange(0, i), s.subrange(i + 1, s.len() as int))),
        None => None,
    }
}

/// The part of `s` after its first `c`, if it has one.
pub fn after_char(s: &str, c: char) -> (r: Option<String>)
    ensures
        match r {
            Some(x) => split_once(s@, c) matches Some((_, t)) && x@ == t,
            None => split_once(s@, c) is None,
        },
{
    let v = chars_of(s);
    let mut i: usize = 0;
    while i < v.len()
        invariant
            v@ == s@,
            i <= v.len(),
            find_from(v@, seq![c], 0) == find_from(v@, seq![c], i as int),
        decreases v.len() - i,
    {
        proof {
            assert(has_at(v@, i as int, seq![c]) <==> v@[i as int] == c) by {
                if v@[i as int] == c {
                    assert(v@.subrange(i as int, i + 1) =~= seq![c]);
                } else if has_at(v@, i as int, seq![c]) {
                    assert(v@.subrange(i as int, i + 1)[0] == c);
                }
            }
        }
        if v[i] == c {
            return Some(string_of_range(&v, i + 1, v.len()));
        }
        i += 1;
    }
    None
}

/// `s` with ASCII capitals made small (`to_ascii_lowercase`). Matched
/// against the ASCII patterns of this crate it gives the answer full
/// Unicode lowering gives: of the non-ASCII characters only the Kelvin
/// sign lowers to ASCII (`k`, in no pattern) and `İ` lowers to `i` and a
/// combining dot, which no pattern holds.
pub open spec fn lowered(s: Seq<char>) -> Seq<char> {
    s.map_values(|c: char| ascii_lower(c))
}

/// The characters of `s`, ASCII capitals made small.
pub fn lower_string(s: &str) -> (r: Vec<char>)
    ensures
        r@ == lowered(s@),
{
    let v = chars_of(s);
    let mut out: Vec<char> = Vec::new();
    let mut i: usize = 0;
    while i < v.len()
        invariant
            v@ == s@,
            i <= v.len(),
            out@ =~= lowered(s@).take(i as int),
        decreases v.len() - i,
    {
        out.push(ascii_lower_exec(v[i]));
        i += 1;
    }
    out
}

/// Whether the characters of `h` are those of `p`.
pub fn vec_eq_str(h: &Vec<char>, p: &str) -> (r: bool)
    ensures
        r == (h@ == p@),
{
    if h.len() != p.unicode_len() {
        return false;
    }
    let r = has_at_exec(h, 0, p);
    proof {
        assert(h@.subrange(0, h@.len() as int) =~= h@);
    }
    r
}


/// Words of `s[0..i]` split at whitespace: the finished words and the open one.
pub open spec fn words_prefix(s: Seq<char>, i: int) -> (Seq<Seq<char>>, Seq<char>)
    decreases i,
{
    if i <= 0 || i > s.len() {
        (seq![], seq![])
    } else {
        let (done, cur) = words_prefix(s, i - 1);
        if is_ws(s[i - 1]) {
            if cur.len() > 0 {
                (done.push(cur), seq![])
            } else {
                (done, cur)
            }
        } else {
            (done, cur.push(s[i - 1]))
        }
    }
}

/// The words of `s`: its maximal runs of non-whitespace characters
/// (`str::split_whitespace`).
pub open spec fn words(s: Seq<char>) -> Seq<Seq<char>> {
    let (done, cur) = words_prefix(s, s.len() as int);
    if cur.len() > 0 {
        done.push(cur)
    } else {
        done
    }
}

/// The words of `s` (see `words`).
pub fn split_whitespace_str(s: &str) -> (r: Vec<String>)
    ensures
        views(r@) == words(s@),
{
    let mut done: Vec<String> = Vec::new();
    let mut cur = String::new();
    for x in it: s.chars()
        invariant
            it.seq() == s@,
            (views(done@), cur@) == words_prefix(s@, it.index() as int),
    {
        if is_ws_exec(x) {
            if cur.unicode_len() > 0 {
                let piece = cur;
                let ghost d = views(done@);
                done.push(piece);
                cur = String::new();
                proof {
                    assert(views(done@) =~= d.push(piece@));
                }
            }
        } else {
            push_char(&mut cur, x);
        }
    }
    if cur.unicode_len() > 0 {
        let ghost d = views(done@);
        let piece = cur;
        done.push(piece);
        proof {
            assert(views(done@) =~= d.push(piece@));
        }
    }
    done
}


/// The UTF-8 encoding of two sequences one after the other is the
/// encoding of the first followed by that of the second.
pub proof fn lemma_encode_concat(a: Seq<char>, b: Seq<char>)
    ensures
        vstd::utf8::encode_utf8(a + b) == vstd::utf8::encode_utf8(a) + vstd::utf8::encode_utf8(b),
    decreases a.len(),
{
    if a.len() == 0 {
        assert(a + b =~= b);
        assert(vstd::utf8::encode_utf8(a) =~= Seq::<u8>::empty());
        assert(vstd::utf8::encode_utf8(a) + vstd::utf8::encode_utf8(b) =~= vstd::utf8::encode_utf8(b));
    } else {
        assert((a + b).drop_first() =~= a.drop_first() + b);
        assert((a + b)[0] == a[0]);
        lemma_encode_concat(a.drop_first(), b);
        assert(vstd::utf8::encode_utf8(a + b) =~= vstd::utf8::encode_scalar(a[0] as u32) + (
        vstd::utf8::encode_utf8(a.drop_first()) + vstd::utf8::encode_utf8(b)));
    }
}

/// Bytes a character takes in UTF-8.
pub open spec fn utf8_width(c: char) -> nat {
    if (c as u32) <= 0x7F {
        1
    } else if (c as u32) <= 0x7FF {
        2
    } else if (c as u32) <= 0xFFFF {
        3
    } else {
        4
    }
}

pub proof fn lemma_encode_char(c: char)
    ensures
        vstd::utf8::encode_utf8(seq![c]).len() == utf8_width(c),
{
    assert(seq![c].drop_first() =~= Seq::<char>::empty());
    assert(vstd::utf8::encode_utf8(seq![c].drop_first()) =~= Seq::<u8>::empty());
}

pub fn utf8_width_exec(c: char) -> (r: usize)
    ensures
        r == utf8_width(c),
{
    if (c as u32) <= 0x7F {
        1
    } else if (c as u32) <= 0x7FF {
        2
    } else if (c as u32) <= 0xFFFF {
        3
    } else {
        4
    }
}

} // verus!
