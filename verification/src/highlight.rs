//! Syntax highlighting of code blocks with syntect: each line of the code
//! as pieces of text, each in the color the highlighter gives it.

use vstd::prelude::*;
use syntect::easy::HighlightLines;
use syntect::highlighting::ThemeSet;
use syntect::parsing::SyntaxSet;
use syntect::util::LinesWithEndings;
use crate::text::{chars_of, string_of_range, trim, trim_str};
use crate::theme::Rgb;

verus! {

/// What syntect makes of `code` in the syntax `lang` names (by extension,
/// then by name; plain text when none) and the theme `theme` names (else
/// `fallback`): the lines of the code with
/// their line endings, each as pieces with a foreground color, or one
/// uncolored piece for a line it could not highlight.
pub uninterp spec fn syntect_lines(
    code: Seq<char>,
    lang: Seq<char>,
    theme: Seq<char>,
    fallback: Seq<char>,
) -> Seq<Seq<(Option<Rgb>, Seq<char>)>>;

/// Highlighted lines by their views.
pub open spec fn pieces_view(v: Seq<Vec<(Option<Rgb>, String)>>) -> Seq<Seq<(Option<Rgb>, Seq<char>)>> {
    v.map_values(|l: Vec<(Option<Rgb>, String)>| l@.map_values(|p: (Option<Rgb>, String)| (p.0, p.1@)))
}

/// Highlights `code` with syntect's default syntaxes and themes
/// (`HighlightLines::highlight_line` over `LinesWithEndings`); the syntax is
/// found by `find_syntax_by_token` (extension, then name in any case). The
/// fallback theme is one syntect ships, so a theme is always found.
#[verifier::external_body]
fn syntect_highlight(code: &str, lang: &str, theme: &str, fallback: &str) -> (r: Vec<Vec<(Option<Rgb>, String)>>)
    requires
        fallback@ == "base16-ocean.dark"@,
    ensures
        pieces_view(r@) == syntect_lines(code@, lang@, theme@, fallback@),
{
    let ss = SyntaxSet::load_defaults_newlines();
    let ts = ThemeSet::load_defaults();
    let syntax = ss.find_syntax_by_token(lang).unwrap_or(ss.find_syntax_plain_text());
    let mut h = HighlightLines::new(syntax, ts.themes.get(theme).or(ts.themes.get(fallback)).unwrap());
    let mut out = Vec::new();
    for line in LinesWithEndings::from(code) {
        out.push(match h.highlight_line(line, &ss) {
            Ok(v) => v.into_iter().map(|(s, t)| (Some(Rgb { r: s.foreground.r, g: s.foreground.g, b: s.foreground.b }), t.to_string())).collect(),
            Err(_) => vec![(None, line.to_string())],
        });
    }
    out
}

/// A text without the line endings at its end.
pub open spec fn chop_newlines(t: Seq<char>) -> Seq<char>
    decreases t.len(),
{
    if t.len() > 0 && t.last() == '\n' {
        chop_newlines(t.drop_last())
    } else {
        t
    }
}

/// Highlighted lines as shown: each piece without its line ending.
pub open spec fn shown_pieces(raw: Seq<Seq<(Option<Rgb>, Seq<char>)>>) -> Seq<Seq<(Option<Rgb>, Seq<char>)>> {
    raw.map_values(
        |l: Seq<(Option<Rgb>, Seq<char>)>| l.map_values(|p: (Option<Rgb>, Seq<char>)| (p.0, chop_newlines(p.1))),
    )
}

/// The syntax asked for: the language token, trimmed; plain text when there
/// is none or it is blank.
pub open spec fn syntax_token(lang: Option<Seq<char>>) -> Seq<char> {
    match lang {
        Some(l) => if trim(l).len() > 0 {
            trim(l)
        } else {
            "Plain Text"@
        },
        None => "Plain Text"@,
    }
}

fn chop_newlines_str(s: &str) -> (r: String)
    ensures
        r@ == chop_newlines(s@),
{
    let v = chars_of(s);
    let mut end: usize = v.len();
    proof {
        assert(v@.take(v.len() as int) =~= v@);
    }
    while end > 0 && v[end - 1] == '\n'
        invariant
            end <= v.len(),
            chop_newlines(v@) == chop_newlines(v@.take(end as int)),
        decreases end,
    {
        proof {
            assert(v@.take(end as int).drop_last() =~= v@.take(end - 1));
        }
        end -= 1;
    }
    proof {
        assert(v@.take(end as int) =~= v@.subrange(0, end as int));
    }
    string_of_range(&v, 0, end)
}

/// Highlights `code` as the language `lang` (plain text when none is
/// named) in the syntect theme `theme_name`, falling back to
/// `base16-ocean.dark` when there is no such theme: each line of the code
/// as colored pieces, line endings left out (see `syntect_lines`).
pub fn highlight_code(code: &str, lang: Option<&str>, theme_name: &str) -> (r: Vec<Vec<(Option<Rgb>, String)>>)
    ensures
        pieces_view(r@) == shown_pieces(
            syntect_lines(
                code@,
                syntax_token(
                    match lang {
                        Some(l) => Some(l@),
                        None => None,
                    },
                ),
                theme_name@,
                "base16-ocean.dark"@,
            ),
        ),
{
    let token: String = match lang {
        Some(l) => {
            let t = trim_str(l);
            if t.as_str().unicode_len() > 0 {
                t
            } else {
                String::from_str("Plain Text")
            }
        },
        None => String::from_str("Plain Text"),
    };
    let raw = syntect_highlight(code, token.as_str(), theme_name, "base16-ocean.dark");
    let ghost rv = pieces_view(raw@);
    let ghost target = shown_pieces(rv);
    let mut out: Vec<Vec<(Option<Rgb>, String)>> = Vec::new();
    let mut i: usize = 0;
    while i < raw.len()
        invariant
            rv == pieces_view(raw@),
            target == shown_pieces(rv),
            i <= raw.len(),
            pieces_view(out@) == target.take(i as int),
        decreases raw.len() - i,
    {
        let line = &raw[i];
        let ghost lv = rv[i as int];
        let mut pieces: Vec<(Option<Rgb>, String)> = Vec::new();
        let mut j: usize = 0;
        while j < line.len()
            invariant
                i < raw.len(),
                line == raw@[i as int],
                lv == rv[i as int],
                lv == line@.map_values(|p: (Option<Rgb>, String)| (p.0, p.1@)),
                j <= line.len(),
                pieces@.map_values(|p: (Option<Rgb>, String)| (p.0, p.1@)) == target[i as int].take(j as int),
                target[i as int] == lv.map_values(|p: (Option<Rgb>, Seq<char>)| (p.0, chop_newlines(p.1))),
            decreases line.len() - j,
        {
            let color = line[j].0;
            let text = chop_newlines_str(line[j].1.as_str());
            let ghost before = pieces@.map_values(|p: (Option<Rgb>, String)| (p.0, p.1@));
            pieces.push((color, text));
            proof {
                assert(lv[j as int] == (line@[j as int].0, line@[j as int].1@));
                assert(pieces@.map_values(|p: (Option<Rgb>, String)| (p.0, p.1@)) =~= before.push((color, text@)));
                assert(target[i as int].take(j + 1) =~= target[i as int].take(j as int).push(target[i as int][j as int]));
            }
            j += 1;
        }
        let ghost before_out = pieces_view(out@);
        proof {
            assert(target[i as int].take(line.len() as int) =~= target[i as int]);
        }
        out.push(pieces);
        proof {
            assert(pieces_view(out@) =~= before_out.push(target[i as int]));
            assert(target.take(i + 1) =~= target.take(i as int).push(target[i as int]));
        }
        i += 1;
    }
    proof {
        assert(target.take(raw.len() as int) =~= target);
    }
    out
}

} // verus!
