//! Styled text for the terminal, independent of any rendering library: a
//! style names a role of the theme and the modifiers laid over it.

use vstd::prelude::*;

verus! {

/// The theme role whose colors a piece of text takes; `Plain` is the
/// terminal's own.
#[derive(Clone, Copy, Debug, PartialEq, Eq, Structural)]
pub enum Tone {
    Plain,
    Body,
    Code,
    Muted,
    Heading,
    ListMarker,
    Quote,
    Assistant,
    Tool,
    Title,
    SidebarDir,
    SidebarFile,
    Sidebar,
    Dialog,
    DialogSelected,
    User,
    Thinking,
    System,
}

/// A theme role with text modifiers; `link` takes the theme's link color.
#[derive(Clone, Copy, Debug, PartialEq, Eq, Structural)]
pub struct TextStyle {
    pub tone: Tone,
    pub bold: bool,
    pub italic: bool,
    pub crossed: bool,
    pub underlined: bool,
    pub dim: bool,
    pub reversed: bool,
    pub link: bool,
}

/// A role's style with no modifier.
pub open spec fn tone_style(tone: Tone) -> TextStyle {
    TextStyle {
        tone: tone,
        bold: false,
        italic: false,
        crossed: false,
        underlined: false,
        dim: false,
        reversed: false,
        link: false,
    }
}

/// A role's style with no modifier.
pub fn plain_style(tone: Tone) -> (r: TextStyle)
    ensures
        r == tone_style(tone),
{
    TextStyle {
        tone: tone,
        bold: false,
        italic: false,
        crossed: false,
        underlined: false,
        dim: false,
        reversed: false,
        link: false,
    }
}

/// A piece of text and its style.
pub struct StyledSpan {
    pub text: String,
    pub style: TextStyle,
}

/// Spans by their texts and styles.
pub open spec fn spans_view(v: Seq<StyledSpan>) -> Seq<(Seq<char>, TextStyle)> {
    v.map_values(|s: StyledSpan| (s.text@, s.style))
}

/// Lines of spans by their views.
pub open spec fn span_lines(v: Seq<Vec<StyledSpan>>) -> Seq<Seq<(Seq<char>, TextStyle)>> {
    v.map_values(|l: Vec<StyledSpan>| spans_view(l@))
}

/// The texts of spans one after the other.
pub open spec fn spans_text(v: Seq<(Seq<char>, TextStyle)>) -> Seq<char>
    decreases v.len(),
{
    if v.len() == 0 {
        seq![]
    } else {
        spans_text(v.drop_last()) + v.last().0
    }
}

/// A span of `text` in `style`.
pub fn span(text: String, style: TextStyle) -> (r: StyledSpan)
    ensures
        r.text@ == text@,
        r.style == style,
{
    StyledSpan { text, style }
}

/// The texts of `v` one after the other.
pub fn joined_text(v: &Vec<StyledSpan>) -> (r: String)
    ensures
        r@ == spans_text(spans_view(v@)),
{
    let mut out = String::new();
    let mut k: usize = 0;
    while k < v.len()
        invariant
            k <= v.len(),
            out@ == spans_text(spans_view(v@).take(k as int)),
        decreases v.len() - k,
    {
        out.append(v[k].text.as_str());
        proof {
            assert(spans_view(v@).take(k + 1).drop_last() =~= spans_view(v@).take(k as int));
        }
        k += 1;
    }
    proof {
        assert(spans_view(v@).take(v.len() as int) =~= spans_view(v@));
    }
    out
}

/// Appends `more` to `v`.
pub fn extend_spans(v: &mut Vec<StyledSpan>, more: Vec<StyledSpan>)
    ensures
        spans_view(final(v)@) == spans_view(old(v)@) + spans_view(more@),
{
    let mut more = more;
    let ghost m = more@;
    v.append(&mut more);
    proof {
        assert(spans_view(v@) =~= spans_view(old(v)@) + spans_view(m));
    }
}

} // verus!
