//! Text handling for the terminal front end: single-line input, cursor
//! columns, control-sequence stripping, number and error display, and the
//! fixed prompts it shows.

use vstd::prelude::*;
use vstd::utf8::{decode_utf8, encode_utf8};
use crate::tool::{boundary_floor, truncate_str};
use crate::num::{decimal, decimal_string, parse_uint, parse_uint_exec};
use crate::text::{
    chars_of, find, find_exec, has_at_exec, lemma_encode_char, lemma_encode_concat, lines,
    lines_of, push_char, starts_with, starts_with_str, string_of_range, trim, trim_start,
    trim_start_str, trim_str, utf8_width, utf8_width_exec, views,
};

verus! {

// ---------------------------------------------------------------------------
// Input text
// ---------------------------------------------------------------------------

/// `text` with each carriage return and newline made a space.
pub open spec fn spec_single_line(text: Seq<char>) -> Seq<char> {
    text.map_values(|c: char| if c == '\r' || c == '\n' { ' ' } else { c })
}

pub fn normalize_single_line_text(text: &str) -> (r: String)
    ensures
        r@ == spec_single_line(text@),
{
    let v = chars_of(text);
    let mut out = String::new();
    let mut i: usize = 0;
    while i < v.len()
        invariant
            v@ == text@,
            i <= v.len(),
            out@ =~= spec_single_line(text@).take(i as int),
        decreases v.len() - i,
    {
        let c = v[i];
        push_char(&mut out, if c == '\r' || c == '\n' { ' ' } else { c });
        i += 1;
    }
    out
}

/// The byte offset of the character at `column`, or the text's length in
/// bytes when the column is past its end.
pub open spec fn spec_column_byte(text: Seq<char>, column: nat) -> nat {
    let k = if column < text.len() {
        column as int
    } else {
        text.len() as int
    };
    encode_utf8(text.take(k)).len()
}

pub fn char_column_to_byte_index(text: &str, column: usize) -> (r: usize)
    requires
        encode_utf8(text@).len() <= usize::MAX,
    ensures
        r == spec_column_byte(text@, column as nat),
{
    let v = chars_of(text);
    let n = if column < v.len() {
        column
    } else {
        v.len()
    };
    let mut acc: usize = 0;
    let mut i: usize = 0;
    proof {
        assert(v@.take(0) =~= Seq::<char>::empty());
    }
    while i < n
        invariant
            v@ == text@,
            n <= v.len(),
            i <= n,
            encode_utf8(text@).len() <= usize::MAX,
            acc == encode_utf8(v@.take(i as int)).len(),
        decreases n - i,
    {
        proof {
            assert(v@.take(i + 1) =~= v@.take(i as int) + seq![v@[i as int]]);
            lemma_encode_concat(v@.take(i as int), seq![v@[i as int]]);
            lemma_encode_char(v@[i as int]);
            assert(v@ =~= v@.take(i + 1) + v@.skip(i + 1));
            lemma_encode_concat(v@.take(i + 1), v@.skip(i + 1));
        }
        acc = acc + utf8_width_exec(v[i]);
        i += 1;
    }
    acc
}

// ---------------------------------------------------------------------------
// Line numbers of a read result
// ---------------------------------------------------------------------------

/// The number before the colon of a numbered line; none for a `...` note
/// or a line without a number.
pub open spec fn line_number(line: Seq<char>) -> Option<nat> {
    let t = trim_start(line);
    if starts_with(t, "..."@) {
        None
    } else {
        match find(t, ":"@) {
            None => None,
            Some(k) => parse_uint(trim(t.subrange(0, k)), 10, usize::MAX as nat),
        }
    }
}

/// The numbers of the numbered lines, in order.
pub open spec fn line_numbers(ls: Seq<Seq<char>>) -> Seq<nat>
    decreases ls.len(),
{
    if ls.len() == 0 {
        seq![]
    } else {
        let r = line_numbers(ls.drop_last());
        match line_number(ls.last()) {
            Some(n) => r.push(n),
            None => r,
        }
    }
}

/// The first and last line numbers of a read tool's result.
pub open spec fn spec_line_span(result: Seq<char>) -> Option<(nat, nat)> {
    let ns = line_numbers(lines(result));
    if ns.len() == 0 {
        None
    } else {
        Some((ns[0], ns.last()))
    }
}

fn line_number_exec(line: &str) -> (r: Option<usize>)
    ensures
        match r {
            Some(n) => line_number(line@) == Some(n as nat),
            None => line_number(line@) is None,
        },
{
    let t = trim_start_str(line);
    if starts_with_str(t.as_str(), "...") {
        return None;
    }
    let v = chars_of(t.as_str());
    match find_exec(&v, ":", 0) {
        None => None,
        Some(k) => {
            proof {
                reveal_strlit(":");
            }
            let piece = string_of_range(&v, 0, k);
            let tp = trim_str(piece.as_str());
            let tv = chars_of(tp.as_str());
            proof {
                assert(tv@.subrange(0, tv@.len() as int) =~= tv@);
            }
            match parse_uint_exec(&tv, 0, tv.len(), 10, usize::MAX as u64) {
                Some(x) => Some(x as usize),
                None => None,
            }
        },
    }
}

/// The first and last line numbers of a read tool's result.
pub fn read_line_span(result: &str) -> (r: Option<(usize, usize)>)
    ensures
        match r {
            Some((a, b)) => spec_line_span(result@) == Some((a as nat, b as nat)),
            None => spec_line_span(result@) is None,
        },
{
    let ls = lines_of(result);
    let ghost lv = views(ls@);
    let mut nums: Vec<usize> = Vec::new();
    let mut i: usize = 0;
    while i < ls.len()
        invariant
            lv == views(ls@),
            lv == lines(result@),
            i <= ls.len(),
            nums@.map_values(|x: usize| x as nat) =~= line_numbers(lv.take(i as int)),
        decreases ls.len() - i,
    {
        proof {
            assert(lv.take(i + 1).drop_last() =~= lv.take(i as int));
            assert(lv.take(i + 1).last() == ls@[i as int]@);
        }
        match line_number_exec(ls[i].as_str()) {
            Some(n) => {
                nums.push(n);
            },
            None => {},
        }
        i += 1;
    }
    proof {
        assert(lv.take(ls.len() as int) =~= lv);
    }
    if nums.len() == 0 {
        None
    } else {
        Some((nums[0], nums[nums.len() - 1]))
    }
}

// ---------------------------------------------------------------------------
// Control sequences
// ---------------------------------------------------------------------------

/// A C0 or C1 control character (`char::is_control`).
pub open spec fn is_control(c: char) -> bool {
    c <= '\u{1f}' || ('\u{7f}' <= c && c <= '\u{9f}')
}

/// Where reading resumes after a CSI sequence whose parameters start at
/// `j`: just past its final character (one in `@..=~`), or at the end.
pub open spec fn csi_end(s: Seq<char>, j: int) -> int
    decreases s.len() - j,
{
    if j < 0 || j >= s.len() {
        s.len() as int
    } else if '@' <= s[j] && s[j] <= '~' {
        j + 1
    } else {
        csi_end(s, j + 1)
    }
}

/// Where reading resumes after an OSC string scanned from `j`, `esc`
/// telling whether the character before `j` in it was an ESC: just past a
/// BEL or an ESC `\`, or at the end.
pub open spec fn osc_end(s: Seq<char>, j: int, esc: bool) -> int
    decreases s.len() - j,
{
    if j < 0 || j >= s.len() {
        s.len() as int
    } else if s[j] == '\u{7}' || (esc && s[j] == '\\') {
        j + 1
    } else {
        osc_end(s, j + 1, s[j] == '\u{1b}')
    }
}

pub proof fn lemma_csi_end(s: Seq<char>, j: int)
    requires
        0 <= j <= s.len(),
    ensures
        j <= csi_end(s, j) <= s.len(),
    decreases s.len() - j,
{
    if j < s.len() && !('@' <= s[j] && s[j] <= '~') {
        lemma_csi_end(s, j + 1);
    }
}

pub proof fn lemma_osc_end(s: Seq<char>, j: int, esc: bool)
    requires
        0 <= j <= s.len(),
    ensures
        j <= osc_end(s, j, esc) <= s.len(),
    decreases s.len() - j,
{
    if j < s.len() && !(s[j] == '\u{7}' || (esc && s[j] == '\\')) {
        lemma_osc_end(s, j + 1, s[j] == '\u{1b}');
    }
}

/// The text from `i` on, appended to `out`, with CSI sequences and OSC
/// strings removed, any other ESC dropped alone, and control characters
/// other than newline and tab dropped.
pub open spec fn strip_controls_from(s: Seq<char>, i: int, out: Seq<char>) -> Seq<char>
    decreases (if 0 <= i < s.len() { s.len() - i } else { 0 }),
{
    if i < 0 || i >= s.len() {
        out
    } else {
        let c = s[i];
        if c == '\u{1b}' {
            if i + 1 < s.len() && s[i + 1] == '[' {
                proof {
                    lemma_csi_end(s, i + 2);
                }
                strip_controls_from(s, csi_end(s, i + 2), out)
            } else if i + 1 < s.len() && s[i + 1] == ']' {
                proof {
                    lemma_osc_end(s, i + 2, false);
                }
                strip_controls_from(s, osc_end(s, i + 2, false), out)
            } else {
                strip_controls_from(s, i + 1, out)
            }
        } else if is_control(c) && c != '\n' && c != '\t' {
            strip_controls_from(s, i + 1, out)
        } else {
            strip_controls_from(s, i + 1, out.push(c))
        }
    }
}

/// Text with terminal control sequences removed (see `strip_controls_from`);
/// newlines and tabs stay.
pub fn strip_terminal_controls(text: &str) -> (r: String)
    ensures
        r@ == strip_controls_from(text@, 0, seq![]),
{
    let v = chars_of(text);
    let n = v.len();
    let mut out = String::new();
    let mut i: usize = 0;
    while i < n
        invariant
            v@ == text@,
            n == v.len(),
            i <= n,
            strip_controls_from(text@, 0, seq![]) == strip_controls_from(text@, i as int, out@),
        decreases n - i,
    {
        let c = v[i];
        if c == '\u{1b}' {
            if i + 1 < n && v[i + 1] == '[' {
                let mut j = i + 2;
                while j < n && !('@' <= v[j] && v[j] <= '~')
                    invariant
                        v@ == text@,
                        n == v.len(),
                        i + 2 <= j <= n,
                        csi_end(text@, i + 2) == csi_end(text@, j as int),
                    decreases n - j,
                {
                    j += 1;
                }
                i = if j < n {
                    j + 1
                } else {
                    n
                };
            } else if i + 1 < n && v[i + 1] == ']' {
                let mut j = i + 2;
                let mut esc = false;
                while j < n && !(v[j] == '\u{7}' || (esc && v[j] == '\\'))
                    invariant
                        v@ == text@,
                        n == v.len(),
                        i + 2 <= j <= n,
                        osc_end(text@, i + 2, false) == osc_end(text@, j as int, esc),
                    decreases n - j,
                {
                    esc = v[j] == '\u{1b}';
                    j += 1;
                }
                i = if j < n {
                    j + 1
                } else {
                    n
                };
            } else {
                i += 1;
            }
        } else if (c <= '\u{1f}' || ('\u{7f}' <= c && c <= '\u{9f}')) && c != '\n' && c != '\t' {
            i += 1;
        } else {
            push_char(&mut out, c);
            i += 1;
        }
    }
    out
}

// ---------------------------------------------------------------------------
// Numbers, errors and fixed texts
// ---------------------------------------------------------------------------

/// A number below 1000 written with three digits.
pub open spec fn pad3(n: nat) -> Seq<char> {
    if n < 10 {
        "00"@ + decimal(n)
    } else if n < 100 {
        "0"@ + decimal(n)
    } else {
        decimal(n)
    }
}

/// A number with a comma between each group of three digits.
pub open spec fn grouped(n: nat) -> Seq<char>
    decreases n,
{
    if n < 1000 {
        decimal(n)
    } else {
        grouped(n / 1000) + ","@ + pad3(n % 1000)
    }
}

fn pad3_exec(n: u64) -> (r: String)
    requires
        n < 1000,
    ensures
        r@ == pad3(n as nat),
{
    let d = decimal_string(n);
    if n < 10 {
        let mut s = String::from_str("00");
        s.append(d.as_str());
        s
    } else if n < 100 {
        let mut s = String::from_str("0");
        s.append(d.as_str());
        s
    } else {
        d
    }
}

/// A count with thousands separated by commas (`1,234,567`).
pub fn format_number(value: u64) -> (r: String)
    ensures
        r@ == grouped(value as nat),
    decreases value,
{
    if value < 1000 {
        decimal_string(value)
    } else {
        let mut s = format_number(value / 1000);
        s.append(",");
        s.append(pad3_exec(value % 1000).as_str());
        s
    }
}

/// Whether a failed model call is worth another try: any error but an
/// HTTP 4xx, though 429 (rate limit) and 408 (timeout) are retried.
pub open spec fn spec_is_retriable(msg: Seq<char>) -> bool {
    !(starts_with(msg, "HTTP 4"@) && !starts_with(msg, "HTTP 429"@) && !starts_with(
        msg,
        "HTTP 408"@,
    ))
}

pub fn is_retriable_error(msg: &str) -> (r: bool)
    ensures
        r == spec_is_retriable(msg@),
{
    !(starts_with_str(msg, "HTTP 4") && !starts_with_str(msg, "HTTP 429") && !starts_with_str(
        msg,
        "HTTP 408",
    ))
}

/// An error's first line, cut to 47 characters and an ellipsis when it is
/// longer than 50.
pub open spec fn spec_short_error(msg: Seq<char>) -> Seq<char> {
    let ls = lines(msg);
    let first = if ls.len() > 0 {
        ls[0]
    } else {
        msg
    };
    if first.len() > 50 {
        first.take(47).push('…')
    } else {
        first
    }
}

pub fn short_error(msg: &str) -> (r: String)
    ensures
        r@ == spec_short_error(msg@),
{
    let ls = lines_of(msg);
    let first = if ls.len() > 0 {
        ls[0].clone()
    } else {
        String::from_str(msg)
    };
    proof {
        assert(ls.len() > 0 ==> views(ls@)[0] == ls@[0]@);
    }
    let v = chars_of(first.as_str());
    if v.len() > 50 {
        let mut s = string_of_range(&v, 0, 47);
        push_char(&mut s, '…');
        s
    } else {
        first
    }
}

/// Lines of a script: trimmed, without blank lines and `#` comments.
pub open spec fn script_from(ls: Seq<Seq<char>>) -> Seq<Seq<char>>
    decreases ls.len(),
{
    if ls.len() == 0 {
        seq![]
    } else {
        let r = script_from(ls.drop_last());
        let t = trim(ls.last());
        if t.len() > 0 && !starts_with(t, "#"@) {
            r.push(t)
        } else {
            r
        }
    }
}

/// The commands of a script file's text (see `script_from`).
pub fn script_lines(content: &str) -> (r: Vec<String>)
    ensures
        views(r@) == script_from(lines(content@)),
{
    let ls = lines_of(content);
    let ghost lv = views(ls@);
    let mut out: Vec<String> = Vec::new();
    let mut i: usize = 0;
    while i < ls.len()
        invariant
            lv == views(ls@),
            i <= ls.len(),
            views(out@) == script_from(lv.take(i as int)),
        decreases ls.len() - i,
    {
        proof {
            assert(lv.take(i + 1).drop_last() =~= lv.take(i as int));
        }
        let t = trim_str(ls[i].as_str());
        if t.unicode_len() > 0 && !starts_with_str(t.as_str(), "#") {
            let ghost before = views(out@);
            out.push(t);
            proof {
                assert(views(out@) =~= before.push(t@));
            }
        }
        i += 1;
    }
    proof {
        assert(lv.take(ls.len() as int) =~= lv);
    }
    out
}

/// Prompt-cache counters.
pub struct CacheStats {
    pub hits: usize,
    pub total: usize,
    pub prompt_count: usize,
}

impl CacheStats {
    /// The hit rate in whole percent, none before any request.
    pub fn rate(&self) -> (r: Option<usize>)
        requires
            self.hits * 100 <= usize::MAX,
        ensures
            self.total == 0 ==> r is None,
            self.total > 0 ==> (r matches Some(x) && x as int == (self.hits * 100) as int / self.total as int),
    {
        if self.total == 0 {
            return None;
        }
        Some(self.hits * 100 / self.total)
    }
}

/// The hint under the input box on the home screen.
pub fn home_input_hint() -> (r: &'static str)
    ensures
        r@ == "输入消息后 Enter 开始 · /connect 配置 provider · /models 选择模型 · Esc 退出"@,
{
    "输入消息后 Enter 开始 · /connect 配置 provider · /models 选择模型 · Esc 退出"
}

/// The message `/init` sends: load the onboarding skill, with the user's
/// focus when one was given.
pub open spec fn spec_init_template(args: Seq<char>) -> Seq<char> {
    "Initialize this project now. Load and follow the `project-onboarding` skill."@ + if args.len()
        == 0 {
        Seq::empty()
    } else {
        "\n\nUser focus: "@ + args
    }
}

pub fn init_template(args: &str) -> (r: String)
    ensures
        r@ == spec_init_template(args@),
{
    let mut s = String::from_str(
        "Initialize this project now. Load and follow the `project-onboarding` skill.",
    );
    if args.unicode_len() > 0 {
        s.append("\n\nUser focus: ");
        s.append(args);
    }
    proof {
        assert(args@.len() == 0 ==> s@ =~= spec_init_template(args@));
    }
    s
}


// ---------------------------------------------------------------------------
// Tool call previews
// ---------------------------------------------------------------------------

/// The first line of a text, empty when there is none.
pub open spec fn first_line_of(t: Seq<char>) -> Seq<char> {
    if lines(t).len() > 0 {
        lines(t)[0]
    } else {
        seq![]
    }
}

/// A text cut to at most `max` bytes of UTF-8, at a character boundary.
pub open spec fn cut_at_bytes(s: Seq<char>, max: nat) -> Seq<char> {
    let b = encode_utf8(s);
    if b.len() <= max {
        s
    } else {
        decode_utf8(b.subrange(0, boundary_floor(b, max as int)))
    }
}

/// The one-line preview of a finished tool call: the tool and its target
/// (for a read, with the first and last line numbers read); without a
/// target, the tool and the first line of its result, cut to 60 bytes.
pub open spec fn spec_tool_preview(name: Seq<char>, target: Option<Seq<char>>, result: Seq<char>) -> Seq<char> {
    match target {
        Some(p) => if name == "read"@ && spec_line_span(result) is Some {
            let (a, b) = spec_line_span(result)->0;
            "read "@ + p + " L"@ + decimal(a) + "-"@ + decimal(b)
        } else {
            name + " "@ + p
        },
        None => name + ": "@ + cut_at_bytes(first_line_of(result), 60),
    }
}

/// The preview of a tool call (see `spec_tool_preview`). `target` is the
/// first of the call's `path`, `file_path`, `filePath`, `url`, `pattern`,
/// `query` and `message` arguments that is present, when it is a string.
pub fn tool_display_preview(name: &str, target: Option<&str>, result: &str) -> (r: String)
    requires
        encode_utf8(first_line_of(result@)).len() <= usize::MAX,
    ensures
        r@ == spec_tool_preview(name@, match target {
            Some(t) => Some(t@),
            None => None,
        }, result@),
{
    match target {
        Some(p) => {
            if crate::text::str_eq(name, "read") {
                match read_line_span(result) {
                    Some((a, b)) => {
                        let mut m = String::from_str("read ");
                        m.append(p);
                        m.append(" L");
                        m.append(decimal_string(a as u64).as_str());
                        m.append("-");
                        m.append(decimal_string(b as u64).as_str());
                        return m;
                    },
                    None => {},
                }
            }
            let mut m = String::from_str(name);
            m.append(" ");
            m.append(p);
            m
        },
        None => {
            let ls = lines_of(result);
            let first = if ls.len() > 0 {
                ls[0].clone()
            } else {
                String::new()
            };
            proof {
                if ls.len() > 0 {
                    assert(views(ls@)[0] == ls@[0]@);
                }
                assert(first@ == first_line_of(result@));
            }
            let cut = truncate_str(first.as_str(), 60);
            proof {
                vstd::utf8::encode_utf8_decode_utf8(cut@);
            }
            let mut m = String::from_str(name);
            m.append(": ");
            m.append(cut);
            m
        },
    }
}


/// The home screen's status: what setup is missing (a provider, a model,
/// the provider's API key, in that order), else how to start.
pub open spec fn spec_home_status(has_provider: bool, has_model: bool, key_ready: bool) -> Seq<char> {
    if !has_provider {
        "Setup required: no provider configured. Type /connect to add one."@
    } else if !has_model {
        "Setup required: no model selected. Type /models to choose one."@
    } else if !key_ready {
        "Setup required: API key missing. Type /connect to configure it."@
    } else {
        "Home: type a prompt and press Enter. Esc exits."@
    }
}

/// The home screen's status (see `spec_home_status`).
pub fn home_status_message(has_provider: bool, has_model: bool, key_ready: bool) -> (r: &'static str)
    ensures
        r@ == spec_home_status(has_provider, has_model, key_ready),
{
    if !has_provider {
        "Setup required: no provider configured. Type /connect to add one."
    } else if !has_model {
        "Setup required: no model selected. Type /models to choose one."
    } else if !key_ready {
        "Setup required: API key missing. Type /connect to configure it."
    } else {
        "Home: type a prompt and press Enter. Esc exits."
    }
}

/// The status shown when nothing else is: the current status while a
/// request, dialog or prompt is open; on the home screen, its guidance;
/// else the keys to send and quit.
pub fn default_status_message(
    busy: bool,
    home: bool,
    status: &str,
    has_provider: bool,
    has_model: bool,
    key_ready: bool,
) -> (r: String)
    ensures
        r@ == if busy {
            status@
        } else if home {
            spec_home_status(has_provider, has_model, key_ready)
        } else {
            "Enter 发送 · /exit /q /quit 退出"@
        },
{
    if busy {
        String::from_str(status)
    } else if home {
        String::from_str(home_status_message(has_provider, has_model, key_ready))
    } else {
        String::from_str("Enter 发送 · /exit /q /quit 退出")
    }
}

/// The line under the input box: the provider and model, the thinking
/// effort (`off` when none) and the agent (`default` when none).
pub fn info_line(provider: &str, model: &str, effort: Option<&str>, agent: Option<&str>) -> (r: String)
    ensures
        r@ == "model: "@ + provider@ + "/"@ + model@ + "  |  thinking: "@ + (match effort {
            Some(e) => e@,
            None => "off"@,
        }) + "  |  agent: "@ + (match agent {
            Some(a) => a@,
            None => "default"@,
        }),
{
    let mut r = String::from_str("model: ");
    r.append(provider);
    r.append("/");
    r.append(model);
    r.append("  |  thinking: ");
    match effort {
        Some(e) => r.append(e),
        None => r.append("off"),
    }
    r.append("  |  agent: ");
    match agent {
        Some(a) => r.append(a),
        None => r.append("default"),
    }
    r
}

} // verus!
