//! LaTeX math notation → Unicode text conversion for terminal display.
//!
//! Handles Greek letters, superscripts/subscripts, fractions, roots,
//! mathematical operators, relations, arrows, set notation, font commands
//! (mathbb), and accents. Unknown commands fall through as plain text.
//!
//! The converter is a recursive-descent parser over the characters of the
//! input. Its meaning is given by the spec functions `sp_parse`,
//! `sp_command` and `sp_group`, which return the produced text together
//! with the position where reading stopped.

use vstd::prelude::*;
use crate::text::{
    chars_of, contains_char, is_ascii_alpha, is_ascii_alpha_exec, push_char, str_eq, string_of_char,
    string_of_range,
};
use crate::latex_tables::{
    lookup_symbol, mathbb_char, mathbb_of, sub_char, sub_of, super_char, super_of, symbol_of,
};

verus! {

/// How many characters are left to read from `pos` on.
pub open spec fn rem(s: Seq<char>, pos: int) -> nat {
    if 0 <= pos < s.len() {
        (s.len() - pos) as nat
    } else {
        0
    }
}

/// The later of two reading positions. Reading only moves forward, so
/// `fwd(p, q)` is `p` wherever `p` came from a read started at `q`; writing
/// it keeps that fact visible to the termination check.
pub open spec fn fwd(p: int, q: int) -> int {
    if p >= q {
        p
    } else {
        q
    }
}

/// End of the run of ASCII letters starting at `i`.
pub open spec fn alpha_end(s: Seq<char>, i: int) -> int
    decreases s.len() - i,
{
    if 0 <= i < s.len() && is_ascii_alpha(s[i]) {
        alpha_end(s, i + 1)
    } else {
        i
    }
}

/// A command name read at `pos` (just after a backslash): a run of ASCII
/// letters, or else the single next character, or nothing at the end.
pub open spec fn cmd_name(s: Seq<char>, pos: int) -> (Seq<char>, int) {
    if pos < 0 || pos >= s.len() {
        (seq![], pos)
    } else if is_ascii_alpha(s[pos]) {
        (s.subrange(pos, alpha_end(s, pos)), alpha_end(s, pos))
    } else {
        (seq![s[pos]], pos + 1)
    }
}

/// The symbol a name stands for, or the name itself.
pub open spec fn sym_or_name(name: Seq<char>) -> Seq<char> {
    match symbol_of(name) {
        Some(x) => x,
        None => name,
    }
}

/// What a command does with the text around it.
#[derive(Clone, Copy, PartialEq, Eq, Structural)]
pub enum CmdKind {
    Frac,
    Sqrt,
    Binom,
    Keep,
    Mathbb,
    Accent(char),
    Ignore,
    Space,
    Symbol,
}

/// The kind of a command name.
pub open spec fn cmd_kind(name: Seq<char>) -> CmdKind {
    if name == "frac"@ || name == "dfrac"@ || name == "tfrac"@ {
        CmdKind::Frac
    } else if name == "sqrt"@ {
        CmdKind::Sqrt
    } else if name == "binom"@ || name == "tbinom"@ || name == "dbinom"@ {
        CmdKind::Binom
    } else if name == "text"@ || name == "textrm"@ || name == "textit"@ || name == "textbf"@
        || name == "operatorname"@ || name == "mathrm"@ {
        CmdKind::Keep
    } else if name == "mathbb"@ {
        CmdKind::Mathbb
    } else if name == "mathcal"@ || name == "mathbf"@ || name == "mathsf"@ || name == "mathtt"@
        || name == "mathnormal"@ || name == "mathscr"@ || name == "boldsymbol"@ || name
        == "pmb"@ {
        CmdKind::Keep
    } else if name == "hat"@ || name == "widehat"@ {
        CmdKind::Accent('\u{0302}')
    } else if name == "bar"@ || name == "overline"@ || name == "underline"@ {
        CmdKind::Accent('\u{0304}')
    } else if name == "vec"@ || name == "overrightarrow"@ {
        CmdKind::Accent('\u{20D7}')
    } else if name == "dot"@ {
        CmdKind::Accent('\u{0307}')
    } else if name == "ddot"@ {
        CmdKind::Accent('\u{0308}')
    } else if name == "tilde"@ || name == "widetilde"@ {
        CmdKind::Accent('\u{0303}')
    } else if name == "check"@ || name == "widecheck"@ {
        CmdKind::Accent('\u{030C}')
    } else if name == "breve"@ {
        CmdKind::Accent('\u{0306}')
    } else if name == "acute"@ {
        CmdKind::Accent('\u{0301}')
    } else if name == "grave"@ {
        CmdKind::Accent('\u{0300}')
    } else if name == "left"@ || name == "right"@ || name == "displaystyle"@ || name
        == "textstyle"@ || name == "scriptstyle"@ || name == "scriptscriptstyle"@ || name
        == "limits"@ || name == "nolimits"@ || name == "rm"@ || name == "bf"@ || name == "it"@
        || name == "sf"@ || name == "tt"@ || name == "noalign"@ || name == "hline"@ || name
        == "centering"@ || name == "enspace"@ || name == "quad"@ || name == "qquad"@ {
        CmdKind::Ignore
    } else if name == ","@ || name == ";"@ || name == ":"@ || name == "!"@ || name
        == "thinspace"@ || name == "medspace"@ || name == "thickspace"@ {
        CmdKind::Space
    } else {
        CmdKind::Symbol
    }
}

/// Classifies a command name.
fn classify(name: &str) -> (k: CmdKind)
    ensures
        k == cmd_kind(name@),
{
    if str_eq(name, "frac") || str_eq(name, "dfrac") || str_eq(name, "tfrac") {
        CmdKind::Frac
    } else if str_eq(name, "sqrt") {
        CmdKind::Sqrt
    } else if str_eq(name, "binom") || str_eq(name, "tbinom") || str_eq(name, "dbinom") {
        CmdKind::Binom
    } else if str_eq(name, "text") || str_eq(name, "textrm") || str_eq(name, "textit")
        || str_eq(name, "textbf") || str_eq(name, "operatorname") || str_eq(name, "mathrm") {
        CmdKind::Keep
    } else if str_eq(name, "mathbb") {
        CmdKind::Mathbb
    } else if str_eq(name, "mathcal") || str_eq(name, "mathbf") || str_eq(name, "mathsf")
        || str_eq(name, "mathtt") || str_eq(name, "mathnormal") || str_eq(name, "mathscr")
        || str_eq(name, "boldsymbol") || str_eq(name, "pmb") {
        CmdKind::Keep
    } else if str_eq(name, "hat") || str_eq(name, "widehat") {
        CmdKind::Accent('\u{0302}')
    } else if str_eq(name, "bar") || str_eq(name, "overline") || str_eq(name, "underline") {
        CmdKind::Accent('\u{0304}')
    } else if str_eq(name, "vec") || str_eq(name, "overrightarrow") {
        CmdKind::Accent('\u{20D7}')
    } else if str_eq(name, "dot") {
        CmdKind::Accent('\u{0307}')
    } else if str_eq(name, "ddot") {
        CmdKind::Accent('\u{0308}')
    } else if str_eq(name, "tilde") || str_eq(name, "widetilde") {
        CmdKind::Accent('\u{0303}')
    } else if str_eq(name, "check") || str_eq(name, "widecheck") {
        CmdKind::Accent('\u{030C}')
    } else if str_eq(name, "breve") {
        CmdKind::Accent('\u{0306}')
    } else if str_eq(name, "acute") {
        CmdKind::Accent('\u{0301}')
    } else if str_eq(name, "grave") {
        CmdKind::Accent('\u{0300}')
    } else if str_eq(name, "left") || str_eq(name, "right") || str_eq(name, "displaystyle")
        || str_eq(name, "textstyle") || str_eq(name, "scriptstyle") || str_eq(
        name,
        "scriptscriptstyle",
    ) || str_eq(name, "limits") || str_eq(name, "nolimits") || str_eq(name, "rm") || str_eq(
        name,
        "bf",
    ) || str_eq(name, "it") || str_eq(name, "sf") || str_eq(name, "tt") || str_eq(
        name,
        "noalign",
    ) || str_eq(name, "hline") || str_eq(name, "centering") || str_eq(name, "enspace")
        || str_eq(name, "quad") || str_eq(name, "qquad") {
        CmdKind::Ignore
    } else if str_eq(name, ",") || str_eq(name, ";") || str_eq(name, ":") || str_eq(name, "!")
        || str_eq(name, "thinspace") || str_eq(name, "medspace") || str_eq(name, "thickspace") {
        CmdKind::Space
    } else {
        CmdKind::Symbol
    }
}

/// The superscript form of a whole text: defined when the text is non-empty
/// and every character has a superscript form.
pub open spec fn to_super(s: Seq<char>) -> Option<Seq<char>> {
    if s.len() > 0 && forall|i: int| 0 <= i < s.len() ==> (#[trigger] super_of(s[i])) is Some {
        Some(Seq::new(s.len(), |i: int| super_of(s[i]).unwrap()))
    } else {
        None
    }
}

/// The subscript form of a whole text: defined when the text is non-empty
/// and every character has a subscript form.
pub open spec fn to_sub(s: Seq<char>) -> Option<Seq<char>> {
    if s.len() > 0 && forall|i: int| 0 <= i < s.len() ==> (#[trigger] sub_of(s[i])) is Some {
        Some(Seq::new(s.len(), |i: int| sub_of(s[i]).unwrap()))
    } else {
        None
    }
}

/// A superscript argument as written: converted, or `^(arg)`.
pub open spec fn super_text(arg: Seq<char>) -> Seq<char> {
    match to_super(arg) {
        Some(x) => x,
        None => "^("@ + arg + ")"@,
    }
}

/// A subscript argument as written: converted, or `_(arg)`.
pub open spec fn sub_text(arg: Seq<char>) -> Seq<char> {
    match to_sub(arg) {
        Some(x) => x,
        None => "_("@ + arg + ")"@,
    }
}

/// Whether a fraction part needs parentheses: it is longer than one
/// character and holds an operator or a space.
pub open spec fn needs_paren(t: Seq<char>) -> bool {
    t.len() > 1 && (t.contains('+') || t.contains('-') || t.contains('*') || t.contains(' '))
}

pub open spec fn paren_if(t: Seq<char>) -> Seq<char> {
    if needs_paren(t) {
        seq!['('] + t + seq![')']
    } else {
        t
    }
}

/// `\frac{num}{den}` as `num/den`, parenthesising compound parts.
pub open spec fn frac_text(num: Seq<char>, den: Seq<char>) -> Seq<char> {
    paren_if(num) + seq!['/'] + paren_if(den)
}

/// `\sqrt[idx]{arg}` as `idx√arg`, parenthesising a compound radicand.
pub open spec fn sqrt_text(idx: Seq<char>, arg: Seq<char>) -> Seq<char> {
    idx + seq!['√'] + (if arg.len() > 1 {
        seq!['('] + arg + seq![')']
    } else {
        arg
    })
}

/// `\binom{n}{k}` as `C(n,k)`.
pub open spec fn binom_text(n: Seq<char>, k: Seq<char>) -> Seq<char> {
    "C("@ + n + seq![','] + k + seq![')']
}

/// Scan of a `[...]` optional argument: `i` is the next character, `depth`
/// the number of open brackets, `acc` the text read so far.
pub open spec fn bracket_scan(s: Seq<char>, i: int, depth: nat, acc: Seq<char>) -> (
    Seq<char>,
    int,
)
    decreases s.len() - i,
{
    if i < 0 || i >= s.len() || depth == 0 {
        (acc, i)
    } else {
        let c = s[i];
        let d: nat = if c == '[' {
            depth + 1
        } else if c == ']' {
            (depth - 1) as nat
        } else {
            depth
        };
        if c == ']' && d == 0 {
            (acc, i + 1)
        } else {
            bracket_scan(s, i + 1, d, acc.push(c))
        }
    }
}

/// An optional `[...]` argument at `pos` (empty text when absent).
pub open spec fn opt_bracket(s: Seq<char>, pos: int) -> (Seq<char>, int) {
    if 0 <= pos < s.len() && s[pos] == '[' {
        bracket_scan(s, pos + 1, 1, seq![])
    } else {
        (seq![], pos)
    }
}

/// Text produced by reading from `pos` up to the end of the input, or, in a
/// group, up to and including the closing brace; with the position reached.
pub open spec fn sp_parse(s: Seq<char>, pos: int, in_group: bool) -> (Seq<char>, int)
    decreases rem(s, pos), 3nat,
{
    if pos < 0 || pos >= s.len() {
        (seq![], pos)
    } else {
        let c = s[pos];
        if c == '\\' {
            let (a, p1) = sp_command(s, pos + 1);
            let (b, p2) = sp_parse(s, fwd(p1, pos + 1), in_group);
            (a + b, p2)
        } else if c == '^' {
            let (a, p1) = sp_group(s, pos + 1);
            let (b, p2) = sp_parse(s, fwd(p1, pos + 1), in_group);
            (super_text(a) + b, p2)
        } else if c == '_' {
            let (a, p1) = sp_group(s, pos + 1);
            let (b, p2) = sp_parse(s, fwd(p1, pos + 1), in_group);
            (sub_text(a) + b, p2)
        } else if c == '{' {
            let (a, p1) = sp_parse(s, pos + 1, true);
            let (b, p2) = sp_parse(s, fwd(p1, pos + 1), in_group);
            (a + b, p2)
        } else if c == '}' {
            if in_group {
                (seq![], pos + 1)
            } else {
                sp_parse(s, pos + 1, in_group)
            }
        } else if c == '$' {
            sp_parse(s, pos + 1, in_group)
        } else {
            let (b, p2) = sp_parse(s, pos + 1, in_group);
            (seq![c] + b, p2)
        }
    }
}

/// Text produced by the command whose name starts at `pos`, with the
/// position after its arguments.
pub open spec fn sp_command(s: Seq<char>, pos: int) -> (Seq<char>, int)
    decreases rem(s, pos), 2nat,
{
    if pos < 0 {
        (seq![], pos)
    } else {
    let (name, q0) = cmd_name(s, pos);
    let q = fwd(q0, pos);
    match cmd_kind(name) {
        CmdKind::Frac => {
            let (num, p1) = sp_group(s, q);
            let (den, p2) = sp_group(s, fwd(p1, q));
            (frac_text(num, den), p2)
        },
        CmdKind::Sqrt => {
            let (idx, p0) = opt_bracket(s, q);
            let (arg, p1) = sp_group(s, fwd(p0, q));
            (sqrt_text(idx, arg), p1)
        },
        CmdKind::Binom => {
            let (n, p1) = sp_group(s, q);
            let (k, p2) = sp_group(s, fwd(p1, q));
            (binom_text(n, k), p2)
        },
        CmdKind::Keep => sp_group(s, q),
        CmdKind::Mathbb => {
            let (g, p1) = sp_group(s, q);
            (g.map_values(|c: char| mathbb_of(c)), p1)
        },
        CmdKind::Accent(mark) => {
            let (g, p1) = sp_group(s, q);
            (g.push(mark), p1)
        },
        CmdKind::Ignore => (seq![], q0),
        CmdKind::Space => (seq![' '], q0),
        CmdKind::Symbol => (sym_or_name(name), q0),
    }
    }
}

/// Text of one argument at `pos`: a braced group, a command's symbol, or a
/// single character.
pub open spec fn sp_group(s: Seq<char>, pos: int) -> (Seq<char>, int)
    decreases rem(s, pos), 1nat,
{
    if pos < 0 || pos >= s.len() {
        (seq![], pos)
    } else if s[pos] == '{' {
        sp_parse(s, pos + 1, true)
    } else if s[pos] == '\\' {
        let (n, p) = cmd_name(s, pos + 1);
        (sym_or_name(n), p)
    } else {
        (seq![s[pos]], pos + 1)
    }
}

/// The Unicode rendering of a LaTeX text.
pub open spec fn latex_spec(s: Seq<char>) -> Seq<char> {
    sp_parse(s, 0, false).0
}

proof fn lemma_alpha_end(s: Seq<char>, i: int)
    requires
        0 <= i <= s.len(),
    ensures
        i <= alpha_end(s, i) <= s.len(),
        forall|j: int| i <= j < alpha_end(s, i) ==> is_ascii_alpha(#[trigger] s[j]),
        alpha_end(s, i) < s.len() ==> !is_ascii_alpha(s[alpha_end(s, i)]),
    decreases s.len() - i,
{
    if i < s.len() && is_ascii_alpha(s[i]) {
        lemma_alpha_end(s, i + 1);
    }
}

/// Convert LaTeX math notation to Unicode text.
pub fn latex_to_unicode(input: &str) -> (res: String)
    ensures
        res@ == latex_spec(input@),
{
    let mut p = Parser { chars: chars_of(input), pos: 0 };
    p.parse(false)
}

struct Parser {
    chars: Vec<char>,
    pos: usize,
}

impl Parser {
    fn parse(&mut self, in_group: bool) -> (result: String)
        requires
            old(self).pos <= old(self).chars.len(),
        ensures
            final(self).chars@ == old(self).chars@,
            old(self).pos <= final(self).pos <= final(self).chars.len(),
            (result@, final(self).pos as int) == sp_parse(
                old(self).chars@,
                old(self).pos as int,
                in_group,
            ),
        decreases rem(old(self).chars@, old(self).pos as int), 4nat,
    {
        let ghost s = self.chars@;
        let ghost start = self.pos as int;
        let mut result = String::new();
        while self.pos < self.chars.len()
            invariant
                self.chars@ == s,
                s == old(self).chars@,
                start == old(self).pos,
                0 <= start <= self.pos <= self.chars.len(),
                sp_parse(s, start, in_group) == (
                    result@ + sp_parse(s, self.pos as int, in_group).0,
                    sp_parse(s, self.pos as int, in_group).1,
                ),
            decreases self.chars.len() - self.pos,
        {
            if self.step(in_group, &mut result) {
                return result;
            }
        }
        proof {
            assert(result@ + seq![] =~= result@);
        }
        result
    }

    /// One step of `parse`: consumes the next item and appends its text.
    /// Returns `true` when the item closed the current group.
    fn step(&mut self, in_group: bool, result: &mut String) -> (closed: bool)
        requires
            old(self).pos < old(self).chars.len(),
        ensures
            final(self).chars@ == old(self).chars@,
            old(self).pos < final(self).pos <= final(self).chars.len(),
            closed ==> {
                &&& final(result)@ == old(result)@
                &&& sp_parse(old(self).chars@, old(self).pos as int, in_group).0.len() == 0
                &&& sp_parse(old(self).chars@, old(self).pos as int, in_group).1 == final(self).pos as int
            },
            !closed ==> old(result)@ + sp_parse(
                old(self).chars@,
                old(self).pos as int,
                in_group,
            ).0 == final(result)@ + sp_parse(old(self).chars@, final(self).pos as int, in_group).0
                && sp_parse(old(self).chars@, old(self).pos as int, in_group).1 == sp_parse(
                old(self).chars@,
                final(self).pos as int,
                in_group,
            ).1,
        decreases rem(old(self).chars@, old(self).pos as int), 3nat,
    {
        let ghost s = self.chars@;
        let ghost here = self.pos as int;
        let ghost r0 = result@;
        let c = self.chars[self.pos];
        if c == '\\' {
            self.pos += 1;
            self.handle_command(result);
            proof {
                assert(r0 + sp_parse(s, here, in_group).0 =~= result@ + sp_parse(s, self.pos as int, in_group).0);
            }
            false
        } else if c == '^' {
            self.pos += 1;
            let arg = self.read_arg();
            push_super(result, arg.as_str());
            proof {
                assert(r0 + sp_parse(s, here, in_group).0 =~= result@ + sp_parse(s, self.pos as int, in_group).0);
            }
            false
        } else if c == '_' {
            self.pos += 1;
            let arg = self.read_arg();
            push_sub(result, arg.as_str());
            proof {
                assert(r0 + sp_parse(s, here, in_group).0 =~= result@ + sp_parse(s, self.pos as int, in_group).0);
            }
            false
        } else if c == '{' {
            self.pos += 1;
            let inner = self.parse(true);
            result.append(inner.as_str());
            proof {
                assert(r0 + sp_parse(s, here, in_group).0 =~= result@ + sp_parse(s, self.pos as int, in_group).0);
            }
            false
        } else if c == '}' {
            self.pos += 1;
            in_group
        } else if c == '$' {
            self.pos += 1;
            false
        } else {
            push_char(result, c);
            self.pos += 1;
            proof {
                assert(r0 + sp_parse(s, here, in_group).0 =~= result@ + sp_parse(s, self.pos as int, in_group).0);
            }
            false
        }
    }

    fn handle_command(&mut self, result: &mut String)
        requires
            old(self).pos <= old(self).chars.len(),
        ensures
            final(self).chars@ == old(self).chars@,
            old(self).pos <= final(self).pos <= final(self).chars.len(),
            final(result)@ == old(result)@ + sp_command(old(self).chars@, old(self).pos as int).0,
            final(self).pos as int == sp_command(old(self).chars@, old(self).pos as int).1,
        decreases rem(old(self).chars@, old(self).pos as int), 2nat,
    {
        let ghost s = self.chars@;
        let ghost p0 = self.pos as int;
        let ghost r0 = result@;
        let cmd = self.read_command_name();
        let ghost q = self.pos as int;
        match classify(cmd.as_str()) {
            CmdKind::Frac => {
                let num = self.read_group();
                let den = self.read_group();
                let num_paren = needs_paren_exec(num.as_str());
                let den_paren = needs_paren_exec(den.as_str());
                if num_paren {
                    push_char(result, '(');
                }
                result.append(num.as_str());
                if num_paren {
                    push_char(result, ')');
                }
                push_char(result, '/');
                if den_paren {
                    push_char(result, '(');
                }
                result.append(den.as_str());
                if den_paren {
                    push_char(result, ')');
                }
                proof {
                    assert(result@ =~= r0 + frac_text(num@, den@));
                }
            },
            CmdKind::Sqrt => {
                let idx = self.read_optional_bracket();
                let ghost idx_text = opt_bracket(s, q).0;
                match idx {
                    Some(n) => result.append(n.as_str()),
                    None => {},
                }
                push_char(result, '√');
                let arg = self.read_group();
                if arg.unicode_len() > 1 {
                    push_char(result, '(');
                    result.append(arg.as_str());
                    push_char(result, ')');
                } else {
                    result.append(arg.as_str());
                }
                proof {
                    assert(result@ =~= r0 + sqrt_text(idx_text, arg@));
                }
            },
            CmdKind::Binom => {
                let n = self.read_group();
                let k = self.read_group();
                result.append("C(");
                result.append(n.as_str());
                push_char(result, ',');
                result.append(k.as_str());
                push_char(result, ')');
                proof {
                    assert(result@ =~= r0 + binom_text(n@, k@));
                }
            },
            CmdKind::Keep => {
                let g = self.read_group();
                result.append(g.as_str());
            },
            CmdKind::Mathbb => {
                let g = self.read_group();
                let m = to_mathbb(g.as_str());
                result.append(m.as_str());
            },
            CmdKind::Accent(mark) => {
                let g = self.read_group();
                accented(g, mark, result);
            },
            CmdKind::Ignore => {
                proof {
                    assert(result@ =~= r0 + Seq::<char>::empty());
                }
            },
            CmdKind::Space => {
                push_char(result, ' ');
                proof {
                    assert(result@ =~= r0 + seq![' ']);
                }
            },
            CmdKind::Symbol => {
                match lookup_symbol(cmd.as_str()) {
                    Some(sym) => result.append(sym),
                    None => result.append(cmd.as_str()),
                }
            },
        }
    }

    fn read_optional_bracket(&mut self) -> (r: Option<String>)
        requires
            old(self).pos <= old(self).chars.len(),
        ensures
            final(self).chars@ == old(self).chars@,
            old(self).pos <= final(self).pos <= final(self).chars.len(),
            final(self).pos as int == opt_bracket(old(self).chars@, old(self).pos as int).1,
            match r {
                Some(x) => x@ == opt_bracket(old(self).chars@, old(self).pos as int).0,
                None => opt_bracket(old(self).chars@, old(self).pos as int).0.len() == 0,
            },
    {
        let ghost s = self.chars@;
        let ghost p0 = self.pos as int;
        if self.pos < self.chars.len() && self.chars[self.pos] == '[' {
            self.pos += 1;
            let mut depth: usize = 1;
            let mut result = String::new();
            while self.pos < self.chars.len() && depth > 0
                invariant
                    self.chars@ == s,
                    s == old(self).chars@,
                    p0 == old(self).pos,
                    0 <= p0 < self.pos <= self.chars.len(),
                    1 <= depth <= self.pos,
                    opt_bracket(s, p0) == bracket_scan(s, self.pos as int, depth as nat, result@),
                decreases self.chars.len() - self.pos,
            {
                let c = self.chars[self.pos];
                if c == '[' {
                    depth += 1;
                } else if c == ']' {
                    depth -= 1;
                    if depth == 0 {
                        self.pos += 1;
                        return Some(result);
                    }
                }
                push_char(&mut result, c);
                self.pos += 1;
            }
            Some(result)
        } else {
            None
        }
    }

    fn read_command_name(&mut self) -> (name: String)
        requires
            old(self).pos <= old(self).chars.len(),
        ensures
            final(self).chars@ == old(self).chars@,
            old(self).pos <= final(self).pos <= final(self).chars.len(),
            (name@, final(self).pos as int) == cmd_name(old(self).chars@, old(self).pos as int),
    {
        if self.pos >= self.chars.len() {
            return String::new();
        }
        let c = self.chars[self.pos];
        proof {
            lemma_alpha_end(self.chars@, self.pos as int);
        }
        let ghost s = self.chars@;
        if is_ascii_alpha_exec(c) {
            let start = self.pos;
            while self.pos < self.chars.len() && is_ascii_alpha_exec(self.chars[self.pos])
                invariant
                    self.chars@ == s,
                    start <= self.pos <= self.chars.len(),
                    alpha_end(self.chars@, start as int) == alpha_end(
                        self.chars@,
                        self.pos as int,
                    ),
                decreases self.chars.len() - self.pos,
            {
                self.pos += 1;
            }
            string_of_range(&self.chars, start, self.pos)
        } else {
            self.pos += 1;
            string_of_char(c)
        }
    }

    fn read_arg(&mut self) -> (arg: String)
        requires
            old(self).pos <= old(self).chars.len(),
        ensures
            final(self).chars@ == old(self).chars@,
            old(self).pos <= final(self).pos <= final(self).chars.len(),
            (arg@, final(self).pos as int) == sp_group(old(self).chars@, old(self).pos as int),
        decreases rem(old(self).chars@, old(self).pos as int), 2nat,
    {
        if self.pos >= self.chars.len() {
            return String::new();
        }
        if self.chars[self.pos] == '{' {
            self.read_group()
        } else {
            self.read_plain_arg()
        }
    }

    /// An argument that is not a braced group: a command's symbol or one character.
    fn read_plain_arg(&mut self) -> (arg: String)
        requires
            old(self).pos < old(self).chars.len(),
            old(self).chars@[old(self).pos as int] != '{',
        ensures
            final(self).chars@ == old(self).chars@,
            old(self).pos <= final(self).pos <= final(self).chars.len(),
            (arg@, final(self).pos as int) == sp_group(old(self).chars@, old(self).pos as int),
    {
        let c = self.chars[self.pos];
        if c == '\\' {
            self.pos += 1;
            let cmd = self.read_command_name();
            match lookup_symbol(cmd.as_str()) {
                Some(sym) => String::from_str(sym),
                None => cmd,
            }
        } else {
            self.pos += 1;
            string_of_char(c)
        }
    }

    fn read_group(&mut self) -> (arg: String)
        requires
            old(self).pos <= old(self).chars.len(),
        ensures
            final(self).chars@ == old(self).chars@,
            old(self).pos <= final(self).pos <= final(self).chars.len(),
            (arg@, final(self).pos as int) == sp_group(old(self).chars@, old(self).pos as int),
        decreases rem(old(self).chars@, old(self).pos as int), 1nat,
    {
        if self.pos >= self.chars.len() {
            return String::new();
        }
        if self.chars[self.pos] == '{' {
            self.pos += 1;
            self.parse(true)
        } else {
            self.read_plain_arg()
        }
    }
}

/// Appends a text followed by a combining mark.
fn accented(text: String, combining: char, result: &mut String)
    ensures
        final(result)@ == old(result)@ + text@.push(combining),
{
    result.append(text.as_str());
    push_char(result, combining);
    proof {
        assert(final(result)@ =~= old(result)@ + text@.push(combining));
    }
}

fn needs_paren_exec(t: &str) -> (r: bool)
    ensures
        r == needs_paren(t@),
{
    t.unicode_len() > 1 && (contains_char(t, '+') || contains_char(t, '-') || contains_char(t, '*')
        || contains_char(t, ' '))
}

/// Appends the superscript form of `arg`, or `^(arg)` when it has none.
fn push_super(result: &mut String, arg: &str)
    ensures
        final(result)@ == old(result)@ + super_text(arg@),
{
    match to_superscript(arg) {
        Some(s) => result.append(s.as_str()),
        None => {
            result.append("^(");
            result.append(arg);
            result.append(")");
            proof {
                assert(final(result)@ =~= old(result)@ + super_text(arg@));
            }
        },
    }
}

/// Appends the subscript form of `arg`, or `_(arg)` when it has none.
fn push_sub(result: &mut String, arg: &str)
    ensures
        final(result)@ == old(result)@ + sub_text(arg@),
{
    match to_subscript(arg) {
        Some(s) => result.append(s.as_str()),
        None => {
            result.append("_(");
            result.append(arg);
            result.append(")");
            proof {
                assert(final(result)@ =~= old(result)@ + sub_text(arg@));
            }
        },
    }
}

/// The superscript form of `s`, when `s` is non-empty and every character
/// has one.
pub fn to_superscript(s: &str) -> (r: Option<String>)
    ensures
        r matches Some(x) ==> to_super(s@) == Some(x@),
        r is None ==> to_super(s@) is None,
{
    let mut result = String::new();
    for c in it: s.chars()
        invariant
            it.seq() == s@,
            result@.len() == it.index(),
            forall|i: int| 0 <= i < it.index() ==> (#[trigger] super_of(s@[i])) is Some,
            forall|i: int|
                0 <= i < it.index() ==> result@[i] == (#[trigger] super_of(s@[i])).unwrap(),
    {
        match super_char(c) {
            Some(x) => push_char(&mut result, x),
            None => {
                return None;
            },
        }
    }
    if s.unicode_len() == 0 {
        None
    } else {
        proof {
            assert(result@ =~= Seq::new(s@.len(), |i: int| super_of(s@[i]).unwrap()));
        }
        Some(result)
    }
}

/// The subscript form of `s`, when `s` is non-empty and every character
/// has one.
pub fn to_subscript(s: &str) -> (r: Option<String>)
    ensures
        r matches Some(x) ==> to_sub(s@) == Some(x@),
        r is None ==> to_sub(s@) is None,
{
    let mut result = String::new();
    for c in it: s.chars()
        invariant
            it.seq() == s@,
            result@.len() == it.index(),
            forall|i: int| 0 <= i < it.index() ==> (#[trigger] sub_of(s@[i])) is Some,
            forall|i: int|
                0 <= i < it.index() ==> result@[i] == (#[trigger] sub_of(s@[i])).unwrap(),
    {
        match sub_char(c) {
            Some(x) => push_char(&mut result, x),
            None => {
                return None;
            },
        }
    }
    if s.unicode_len() == 0 {
        None
    } else {
        proof {
            assert(result@ =~= Seq::new(s@.len(), |i: int| sub_of(s@[i]).unwrap()));
        }
        Some(result)
    }
}

/// The text with capital letters in double-struck form.
fn to_mathbb(s: &str) -> (r: String)
    ensures
        r@ == s@.map_values(|c: char| mathbb_of(c)),
{
    let mut result = String::new();
    for c in it: s.chars()
        invariant
            it.seq() == s@,
            result@ == s@.take(it.index() as int).map_values(|c: char| mathbb_of(c)),
    {
        proof {
            assert(s@.take(it.index() + 1) =~= s@.take(it.index() as int).push(c));
        }
        push_char(&mut result, mathbb_char(c));
        proof {
            assert(result@ =~= s@.take(it.index() + 1).map_values(|c: char| mathbb_of(c)));
        }
    }
    proof {
        assert(s@.take(s@.len() as int) =~= s@);
    }
    result
}


/// The characters the converter reads as markup.
pub open spec fn is_latex_marker(c: char) -> bool {
    c == '\\' || c == '^' || c == '_' || c == '{' || c == '}' || c == '$'
}

proof fn lemma_plain_from(s: Seq<char>, pos: int)
    requires
        0 <= pos <= s.len(),
        forall|i: int| 0 <= i < s.len() ==> !is_latex_marker(#[trigger] s[i]),
    ensures
        sp_parse(s, pos, false).0 == s.subrange(pos, s.len() as int),
    decreases s.len() - pos,
{
    if pos < s.len() {
        assert(!is_latex_marker(s[pos]));
        lemma_plain_from(s, pos + 1);
        assert(seq![s[pos]] + s.subrange(pos + 1, s.len() as int) =~= s.subrange(pos, s.len() as int));
    } else {
        assert(s.subrange(pos, s.len() as int) =~= Seq::<char>::empty());
    }
}

/// Text with none of `\ ^ _ { } $` comes back unchanged.
pub proof fn lemma_plain_text_unchanged(s: Seq<char>)
    requires
        forall|i: int| 0 <= i < s.len() ==> !is_latex_marker(#[trigger] s[i]),
    ensures
        latex_spec(s) == s,
{
    lemma_plain_from(s, 0);
    assert(s.subrange(0, s.len() as int) =~= s);
}


proof fn lemma_group_plain(s: Seq<char>, pos: int, close: int)
    requires
        0 <= pos <= close < s.len(),
        s[close] == '}',
        forall|i: int| pos <= i < close ==> !is_latex_marker(#[trigger] s[i]),
    ensures
        sp_parse(s, pos, true) == (s.subrange(pos, close), close + 1),
    decreases close - pos,
{
    if pos < close {
        lemma_group_plain(s, pos + 1, close);
        assert(seq![s[pos]] + s.subrange(pos + 1, close) =~= s.subrange(pos, close));
    } else {
        assert(s.subrange(pos, close) =~= Seq::<char>::empty());
    }
}

proof fn lemma_alpha_run(s: Seq<char>, i: int, k: int)
    requires
        0 <= i <= k < s.len(),
        forall|j: int| i <= j < k ==> is_ascii_alpha(#[trigger] s[j]),
        !is_ascii_alpha(s[k]),
    ensures
        alpha_end(s, i) == k,
    decreases k - i,
{
    if i < k {
        lemma_alpha_run(s, i + 1, k);
    }
}

/// An accent command on a plain group: the group's text, then the accent's
/// combining mark.
proof fn lemma_accent_command(name: Seq<char>, mark: char, g: Seq<char>)
    requires
        name.len() > 0,
        forall|i: int| 0 <= i < name.len() ==> is_ascii_alpha(#[trigger] name[i]),
        cmd_kind(name) == CmdKind::Accent(mark),
        forall|i: int| 0 <= i < g.len() ==> !is_latex_marker(#[trigger] g[i]),
    ensures
        latex_spec(seq!['\\'] + name + seq!['{'] + g + seq!['}']) == g.push(mark),
{
    let s = seq!['\\'] + name + seq!['{'] + g + seq!['}'];
    let n = name.len() as int;
    let open = 1 + n;
    let close = open + 1 + g.len();
    assert(s[0] == '\\');
    assert forall|j: int| 1 <= j < open implies is_ascii_alpha(#[trigger] s[j]) by {
        assert(s[j] == name[j - 1]);
    }
    assert(s[open] == '{');
    lemma_alpha_run(s, 1, open);
    assert(s.subrange(1, open) =~= name);
    assert(cmd_name(s, 1) == (name, open));
    assert forall|i: int| open + 1 <= i < close implies !is_latex_marker(#[trigger] s[i]) by {
        assert(s[i] == g[i - open - 1]);
    }
    assert(s[close] == '}');
    lemma_group_plain(s, open + 1, close);
    assert(s.subrange(open + 1, close) =~= g);
    assert(sp_group(s, open) == (g, close + 1));
    assert(sp_command(s, 1) == (g.push(mark), close + 1));
    assert(close + 1 == s.len());
    assert(sp_parse(s, close + 1, false).0 =~= Seq::<char>::empty());
    assert(g.push(mark) + Seq::<char>::empty() =~= g.push(mark));
}

/// Each accent command puts its own combining mark after a plain group
/// (one without `\ ^ _ { } $`): `\hat{g}` is `g` and U+0302, `\tilde{g}`
/// is `g` and U+0303, and so on for every accent.
pub proof fn lemma_accent_marks(g: Seq<char>)
    requires
        forall|i: int| 0 <= i < g.len() ==> !is_latex_marker(#[trigger] g[i]),
    ensures
        latex_spec(seq!['\\', 'h', 'a', 't', '{'] + g + seq!['}']) == g.push('\u{0302}'),
        latex_spec(seq!['\\', 'w', 'i', 'd', 'e', 'h', 'a', 't', '{'] + g + seq!['}']) == g.push('\u{0302}'),
        latex_spec(seq!['\\', 'b', 'a', 'r', '{'] + g + seq!['}']) == g.push('\u{0304}'),
        latex_spec(seq!['\\', 'o', 'v', 'e', 'r', 'l', 'i', 'n', 'e', '{'] + g + seq!['}']) == g.push('\u{0304}'),
        latex_spec(seq!['\\', 'u', 'n', 'd', 'e', 'r', 'l', 'i', 'n', 'e', '{'] + g + seq!['}']) == g.push('\u{0304}'),
        latex_spec(seq!['\\', 'v', 'e', 'c', '{'] + g + seq!['}']) == g.push('\u{20D7}'),
        latex_spec(seq!['\\', 'o', 'v', 'e', 'r', 'r', 'i', 'g', 'h', 't', 'a', 'r', 'r', 'o', 'w', '{'] + g + seq!['}']) == g.push('\u{20D7}'),
        latex_spec(seq!['\\', 'd', 'o', 't', '{'] + g + seq!['}']) == g.push('\u{0307}'),
        latex_spec(seq!['\\', 'd', 'd', 'o', 't', '{'] + g + seq!['}']) == g.push('\u{0308}'),
        latex_spec(seq!['\\', 't', 'i', 'l', 'd', 'e', '{'] + g + seq!['}']) == g.push('\u{0303}'),
        latex_spec(seq!['\\', 'w', 'i', 'd', 'e', 't', 'i', 'l', 'd', 'e', '{'] + g + seq!['}']) == g.push('\u{0303}'),
        latex_spec(seq!['\\', 'c', 'h', 'e', 'c', 'k', '{'] + g + seq!['}']) == g.push('\u{030C}'),
        latex_spec(seq!['\\', 'w', 'i', 'd', 'e', 'c', 'h', 'e', 'c', 'k', '{'] + g + seq!['}']) == g.push('\u{030C}'),
        latex_spec(seq!['\\', 'b', 'r', 'e', 'v', 'e', '{'] + g + seq!['}']) == g.push('\u{0306}'),
        latex_spec(seq!['\\', 'a', 'c', 'u', 't', 'e', '{'] + g + seq!['}']) == g.push('\u{0301}'),
        latex_spec(seq!['\\', 'g', 'r', 'a', 'v', 'e', '{'] + g + seq!['}']) == g.push('\u{0300}'),
{
    reveal_strlit("frac");
    reveal_strlit("dfrac");
    reveal_strlit("tfrac");
    reveal_strlit("sqrt");
    reveal_strlit("binom");
    reveal_strlit("tbinom");
    reveal_strlit("dbinom");
    reveal_strlit("text");
    reveal_strlit("textrm");
    reveal_strlit("textit");
    reveal_strlit("textbf");
    reveal_strlit("operatorname");
    reveal_strlit("mathrm");
    reveal_strlit("mathbb");
    reveal_strlit("mathcal");
    reveal_strlit("mathbf");
    reveal_strlit("mathsf");
    reveal_strlit("mathtt");
    reveal_strlit("mathnormal");
    reveal_strlit("mathscr");
    reveal_strlit("boldsymbol");
    reveal_strlit("pmb");
    reveal_strlit("hat");
    reveal_strlit("widehat");
    reveal_strlit("bar");
    reveal_strlit("overline");
    reveal_strlit("underline");
    reveal_strlit("vec");
    reveal_strlit("overrightarrow");
    reveal_strlit("dot");
    reveal_strlit("ddot");
    reveal_strlit("tilde");
    reveal_strlit("widetilde");
    reveal_strlit("check");
    reveal_strlit("widecheck");
    reveal_strlit("breve");
    reveal_strlit("acute");
    reveal_strlit("grave");
    reveal_strlit("left");
    reveal_strlit("right");
    reveal_strlit("displaystyle");
    reveal_strlit("textstyle");
    reveal_strlit("scriptstyle");
    reveal_strlit("scriptscriptstyle");
    reveal_strlit("limits");
    reveal_strlit("nolimits");
    reveal_strlit("rm");
    reveal_strlit("bf");
    reveal_strlit("it");
    reveal_strlit("sf");
    reveal_strlit("tt");
    reveal_strlit("noalign");
    reveal_strlit("hline");
    reveal_strlit("centering");
    reveal_strlit("enspace");
    reveal_strlit("quad");
    reveal_strlit("qquad");
    reveal_strlit(",");
    reveal_strlit(";");
    reveal_strlit(":");
    reveal_strlit("!");
    reveal_strlit("thinspace");
    reveal_strlit("medspace");
    reveal_strlit("thickspace");
    assert(cmd_kind(seq!['h', 'a', 't']) == CmdKind::Accent('\u{0302}')) by { assert(seq!['h', 'a', 't'] =~= "hat"@); }
    assert(cmd_kind(seq!['w', 'i', 'd', 'e', 'h', 'a', 't']) == CmdKind::Accent('\u{0302}')) by { assert(seq!['w', 'i', 'd', 'e', 'h', 'a', 't'] =~= "widehat"@); }
    assert(cmd_kind(seq!['b', 'a', 'r']) == CmdKind::Accent('\u{0304}')) by { assert(seq!['b', 'a', 'r'] =~= "bar"@); }
    assert(cmd_kind(seq!['o', 'v', 'e', 'r', 'l', 'i', 'n', 'e']) == CmdKind::Accent('\u{0304}')) by { assert(seq!['o', 'v', 'e', 'r', 'l', 'i', 'n', 'e'] =~= "overline"@); }
    assert(cmd_kind(seq!['u', 'n', 'd', 'e', 'r', 'l', 'i', 'n', 'e']) == CmdKind::Accent('\u{0304}')) by { assert(seq!['u', 'n', 'd', 'e', 'r', 'l', 'i', 'n', 'e'] =~= "underline"@); }
    assert(cmd_kind(seq!['v', 'e', 'c']) == CmdKind::Accent('\u{20D7}')) by { assert(seq!['v', 'e', 'c'] =~= "vec"@); }
    assert(cmd_kind(seq!['o', 'v', 'e', 'r', 'r', 'i', 'g', 'h', 't', 'a', 'r', 'r', 'o', 'w']) == CmdKind::Accent('\u{20D7}')) by { assert(seq!['o', 'v', 'e', 'r', 'r', 'i', 'g', 'h', 't', 'a', 'r', 'r', 'o', 'w'] =~= "overrightarrow"@); }
    assert(cmd_kind(seq!['d', 'o', 't']) == CmdKind::Accent('\u{0307}')) by { assert(seq!['d', 'o', 't'] =~= "dot"@); }
    assert(cmd_kind(seq!['d', 'd', 'o', 't']) == CmdKind::Accent('\u{0308}')) by { assert(seq!['d', 'd', 'o', 't'] =~= "ddot"@); }
    assert(cmd_kind(seq!['t', 'i', 'l', 'd', 'e']) == CmdKind::Accent('\u{0303}')) by { assert(seq!['t', 'i', 'l', 'd', 'e'] =~= "tilde"@); }
    assert(cmd_kind(seq!['w', 'i', 'd', 'e', 't', 'i', 'l', 'd', 'e']) == CmdKind::Accent('\u{0303}')) by { assert(seq!['w', 'i', 'd', 'e', 't', 'i', 'l', 'd', 'e'] =~= "widetilde"@); }
    assert(cmd_kind(seq!['c', 'h', 'e', 'c', 'k']) == CmdKind::Accent('\u{030C}')) by { assert(seq!['c', 'h', 'e', 'c', 'k'] =~= "check"@); }
    assert(cmd_kind(seq!['w', 'i', 'd', 'e', 'c', 'h', 'e', 'c', 'k']) == CmdKind::Accent('\u{030C}')) by { assert(seq!['w', 'i', 'd', 'e', 'c', 'h', 'e', 'c', 'k'] =~= "widecheck"@); }
    assert(cmd_kind(seq!['b', 'r', 'e', 'v', 'e']) == CmdKind::Accent('\u{0306}')) by { assert(seq!['b', 'r', 'e', 'v', 'e'] =~= "breve"@); }
    assert(cmd_kind(seq!['a', 'c', 'u', 't', 'e']) == CmdKind::Accent('\u{0301}')) by { assert(seq!['a', 'c', 'u', 't', 'e'] =~= "acute"@); }
    assert(cmd_kind(seq!['g', 'r', 'a', 'v', 'e']) == CmdKind::Accent('\u{0300}')) by { assert(seq!['g', 'r', 'a', 'v', 'e'] =~= "grave"@); }
    lemma_accent_command(seq!['h', 'a', 't'], '\u{0302}', g);
    assert(seq!['\\'] + seq!['h', 'a', 't'] + seq!['{'] + g + seq!['}'] =~= seq!['\\', 'h', 'a', 't', '{'] + g + seq!['}']);
    lemma_accent_command(seq!['w', 'i', 'd', 'e', 'h', 'a', 't'], '\u{0302}', g);
    assert(seq!['\\'] + seq!['w', 'i', 'd', 'e', 'h', 'a', 't'] + seq!['{'] + g + seq!['}'] =~= seq!['\\', 'w', 'i', 'd', 'e', 'h', 'a', 't', '{'] + g + seq!['}']);
    lemma_accent_command(seq!['b', 'a', 'r'], '\u{0304}', g);
    assert(seq!['\\'] + seq!['b', 'a', 'r'] + seq!['{'] + g + seq!['}'] =~= seq!['\\', 'b', 'a', 'r', '{'] + g + seq!['}']);
    lemma_accent_command(seq!['o', 'v', 'e', 'r', 'l', 'i', 'n', 'e'], '\u{0304}', g);
    assert(seq!['\\'] + seq!['o', 'v', 'e', 'r', 'l', 'i', 'n', 'e'] + seq!['{'] + g + seq!['}'] =~= seq!['\\', 'o', 'v', 'e', 'r', 'l', 'i', 'n', 'e', '{'] + g + seq!['}']);
    lemma_accent_command(seq!['u', 'n', 'd', 'e', 'r', 'l', 'i', 'n', 'e'], '\u{0304}', g);
    assert(seq!['\\'] + seq!['u', 'n', 'd', 'e', 'r', 'l', 'i', 'n', 'e'] + seq!['{'] + g + seq!['}'] =~= seq!['\\', 'u', 'n', 'd', 'e', 'r', 'l', 'i', 'n', 'e', '{'] + g + seq!['}']);
    lemma_accent_command(seq!['v', 'e', 'c'], '\u{20D7}', g);
    assert(seq!['\\'] + seq!['v', 'e', 'c'] + seq!['{'] + g + seq!['}'] =~= seq!['\\', 'v', 'e', 'c', '{'] + g + seq!['}']);
    lemma_accent_command(seq!['o', 'v', 'e', 'r', 'r', 'i', 'g', 'h', 't', 'a', 'r', 'r', 'o', 'w'], '\u{20D7}', g);
    assert(seq!['\\'] + seq!['o', 'v', 'e', 'r', 'r', 'i', 'g', 'h', 't', 'a', 'r', 'r', 'o', 'w'] + seq!['{'] + g + seq!['}'] =~= seq!['\\', 'o', 'v', 'e', 'r', 'r', 'i', 'g', 'h', 't', 'a', 'r', 'r', 'o', 'w', '{'] + g + seq!['}']);
    lemma_accent_command(seq!['d', 'o', 't'], '\u{0307}', g);
    assert(seq!['\\'] + seq!['d', 'o', 't'] + seq!['{'] + g + seq!['}'] =~= seq!['\\', 'd', 'o', 't', '{'] + g + seq!['}']);
    lemma_accent_command(seq!['d', 'd', 'o', 't'], '\u{0308}', g);
    assert(seq!['\\'] + seq!['d', 'd', 'o', 't'] + seq!['{'] + g + seq!['}'] =~= seq!['\\', 'd', 'd', 'o', 't', '{'] + g + seq!['}']);
    lemma_accent_command(seq!['t', 'i', 'l', 'd', 'e'], '\u{0303}', g);
    assert(seq!['\\'] + seq!['t', 'i', 'l', 'd', 'e'] + seq!['{'] + g + seq!['}'] =~= seq!['\\', 't', 'i', 'l', 'd', 'e', '{'] + g + seq!['}']);
    lemma_accent_command(seq!['w', 'i', 'd', 'e', 't', 'i', 'l', 'd', 'e'], '\u{0303}', g);
    assert(seq!['\\'] + seq!['w', 'i', 'd', 'e', 't', 'i', 'l', 'd', 'e'] + seq!['{'] + g + seq!['}'] =~= seq!['\\', 'w', 'i', 'd', 'e', 't', 'i', 'l', 'd', 'e', '{'] + g + seq!['}']);
    lemma_accent_command(seq!['c', 'h', 'e', 'c', 'k'], '\u{030C}', g);
    assert(seq!['\\'] + seq!['c', 'h', 'e', 'c', 'k'] + seq!['{'] + g + seq!['}'] =~= seq!['\\', 'c', 'h', 'e', 'c', 'k', '{'] + g + seq!['}']);
    lemma_accent_command(seq!['w', 'i', 'd', 'e', 'c', 'h', 'e', 'c', 'k'], '\u{030C}', g);
    assert(seq!['\\'] + seq!['w', 'i', 'd', 'e', 'c', 'h', 'e', 'c', 'k'] + seq!['{'] + g + seq!['}'] =~= seq!['\\', 'w', 'i', 'd', 'e', 'c', 'h', 'e', 'c', 'k', '{'] + g + seq!['}']);
    lemma_accent_command(seq!['b', 'r', 'e', 'v', 'e'], '\u{0306}', g);
    assert(seq!['\\'] + seq!['b', 'r', 'e', 'v', 'e'] + seq!['{'] + g + seq!['}'] =~= seq!['\\', 'b', 'r', 'e', 'v', 'e', '{'] + g + seq!['}']);
    lemma_accent_command(seq!['a', 'c', 'u', 't', 'e'], '\u{0301}', g);
    assert(seq!['\\'] + seq!['a', 'c', 'u', 't', 'e'] + seq!['{'] + g + seq!['}'] =~= seq!['\\', 'a', 'c', 'u', 't', 'e', '{'] + g + seq!['}']);
    lemma_accent_command(seq!['g', 'r', 'a', 'v', 'e'], '\u{0300}', g);
    assert(seq!['\\'] + seq!['g', 'r', 'a', 'v', 'e'] + seq!['{'] + g + seq!['}'] =~= seq!['\\', 'g', 'r', 'a', 'v', 'e', '{'] + g + seq!['}']);
}

} // verus!
