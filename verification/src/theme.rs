//! Color themes: the file form with hex strings, how one file overrides
//! another, and the palette parsed from it.

use vstd::prelude::*;
use vstd::utf8::{encode_utf8, is_char_boundary};
use crate::num::{digit_value, digits_value, parse_uint, parse_uint_exec};
use crate::text::{chars_of, lemma_encode_char, lemma_encode_concat, push_char, str_eq, trim_start_matches, trim_start_matches_str, utf8_width_exec};

verus! {

/// A 24-bit color.
#[derive(Clone, Copy, Debug, PartialEq, Eq, Structural)]
pub struct Rgb {
    pub r: u8,
    pub g: u8,
    pub b: u8,
}

/// A theme as written in a file: a name, a hex string (`"#RRGGBB"`) per
/// color, and the syntax-highlighting theme's name. An empty field takes
/// its value from the theme it is merged into.
#[derive(Clone, Debug)]
pub struct ThemeFile {
    pub name: String,
    pub background: String,
    pub panel: String,
    pub sidebar_bg: String,
    pub footer_bg: String,
    pub border: String,
    pub active_border: String,
    pub text: String,
    pub muted: String,
    pub user: String,
    pub assistant: String,
    pub assistant_text: String,
    pub success: String,
    pub warning: String,
    pub thinking: String,
    pub tool: String,
    pub dialog: String,
    pub dialog_selected: String,
    pub overlay: String,
    pub message_bg: String,
    pub heading: String,
    pub code: String,
    pub link: String,
    pub blockquote: String,
    pub list_marker: String,
    pub diff_delete: String,
    pub selection: String,
    pub selection_bg: String,
    pub syntect_theme: String,
}

/// A theme file by its view.
pub struct ThemeView {
    pub name: Seq<char>,
    pub background: Seq<char>,
    pub panel: Seq<char>,
    pub sidebar_bg: Seq<char>,
    pub footer_bg: Seq<char>,
    pub border: Seq<char>,
    pub active_border: Seq<char>,
    pub text: Seq<char>,
    pub muted: Seq<char>,
    pub user: Seq<char>,
    pub assistant: Seq<char>,
    pub assistant_text: Seq<char>,
    pub success: Seq<char>,
    pub warning: Seq<char>,
    pub thinking: Seq<char>,
    pub tool: Seq<char>,
    pub dialog: Seq<char>,
    pub dialog_selected: Seq<char>,
    pub overlay: Seq<char>,
    pub message_bg: Seq<char>,
    pub heading: Seq<char>,
    pub code: Seq<char>,
    pub link: Seq<char>,
    pub blockquote: Seq<char>,
    pub list_marker: Seq<char>,
    pub diff_delete: Seq<char>,
    pub selection: Seq<char>,
    pub selection_bg: Seq<char>,
    pub syntect_theme: Seq<char>,
}

impl View for ThemeFile {
    type V = ThemeView;

    open spec fn view(&self) -> ThemeView {
        ThemeView {
            name: self.name@,
            background: self.background@,
            panel: self.panel@,
            sidebar_bg: self.sidebar_bg@,
            footer_bg: self.footer_bg@,
            border: self.border@,
            active_border: self.active_border@,
            text: self.text@,
            muted: self.muted@,
            user: self.user@,
            assistant: self.assistant@,
            assistant_text: self.assistant_text@,
            success: self.success@,
            warning: self.warning@,
            thinking: self.thinking@,
            tool: self.tool@,
            dialog: self.dialog@,
            dialog_selected: self.dialog_selected@,
            overlay: self.overlay@,
            message_bg: self.message_bg@,
            heading: self.heading@,
            code: self.code@,
            link: self.link@,
            blockquote: self.blockquote@,
            list_marker: self.list_marker@,
            diff_delete: self.diff_delete@,
            selection: self.selection@,
            selection_bg: self.selection_bg@,
            syntect_theme: self.syntect_theme@,
        }
    }
}

/// A field after merging: the overlay's when it is set, else the base's.
pub open spec fn merged(base: Seq<char>, over: Seq<char>) -> Seq<char> {
    if over.len() == 0 {
        base
    } else {
        over
    }
}

/// `over` merged into `base`: every set color and the syntax theme of
/// `over` replace those of `base`; the name stays.
pub open spec fn merge_view(base: ThemeView, over: ThemeView) -> ThemeView {
    ThemeView {
        name: base.name,
        background: merged(base.background, over.background),
        panel: merged(base.panel, over.panel),
        sidebar_bg: merged(base.sidebar_bg, over.sidebar_bg),
        footer_bg: merged(base.footer_bg, over.footer_bg),
        border: merged(base.border, over.border),
        active_border: merged(base.active_border, over.active_border),
        text: merged(base.text, over.text),
        muted: merged(base.muted, over.muted),
        user: merged(base.user, over.user),
        assistant: merged(base.assistant, over.assistant),
        assistant_text: merged(base.assistant_text, over.assistant_text),
        success: merged(base.success, over.success),
        warning: merged(base.warning, over.warning),
        thinking: merged(base.thinking, over.thinking),
        tool: merged(base.tool, over.tool),
        dialog: merged(base.dialog, over.dialog),
        dialog_selected: merged(base.dialog_selected, over.dialog_selected),
        overlay: merged(base.overlay, over.overlay),
        message_bg: merged(base.message_bg, over.message_bg),
        heading: merged(base.heading, over.heading),
        code: merged(base.code, over.code),
        link: merged(base.link, over.link),
        blockquote: merged(base.blockquote, over.blockquote),
        list_marker: merged(base.list_marker, over.list_marker),
        diff_delete: merged(base.diff_delete, over.diff_delete),
        selection: merged(base.selection, over.selection),
        selection_bg: merged(base.selection_bg, over.selection_bg),
        syntect_theme: merged(base.syntect_theme, over.syntect_theme),
    }
}

fn merge_field(base: &mut String, over: &String)
    ensures
        final(base)@ == merged(old(base)@, over@),
{
    if over.unicode_len() > 0 {
        *base = over.clone();
    }
}

impl ThemeFile {
    /// Merges `other` into this theme (see `merge_view`).
    pub fn merge(&mut self, other: &ThemeFile)
        ensures
            final(self)@ == merge_view(old(self)@, other@),
    {
        merge_field(&mut self.background, &other.background);
        merge_field(&mut self.panel, &other.panel);
        merge_field(&mut self.sidebar_bg, &other.sidebar_bg);
        merge_field(&mut self.footer_bg, &other.footer_bg);
        merge_field(&mut self.border, &other.border);
        merge_field(&mut self.active_border, &other.active_border);
        merge_field(&mut self.text, &other.text);
        merge_field(&mut self.muted, &other.muted);
        merge_field(&mut self.user, &other.user);
        merge_field(&mut self.assistant, &other.assistant);
        merge_field(&mut self.assistant_text, &other.assistant_text);
        merge_field(&mut self.success, &other.success);
        merge_field(&mut self.warning, &other.warning);
        merge_field(&mut self.thinking, &other.thinking);
        merge_field(&mut self.tool, &other.tool);
        merge_field(&mut self.dialog, &other.dialog);
        merge_field(&mut self.dialog_selected, &other.dialog_selected);
        merge_field(&mut self.overlay, &other.overlay);
        merge_field(&mut self.message_bg, &other.message_bg);
        merge_field(&mut self.heading, &other.heading);
        merge_field(&mut self.code, &other.code);
        merge_field(&mut self.link, &other.link);
        merge_field(&mut self.blockquote, &other.blockquote);
        merge_field(&mut self.list_marker, &other.list_marker);
        merge_field(&mut self.diff_delete, &other.diff_delete);
        merge_field(&mut self.selection, &other.selection);
        merge_field(&mut self.selection_bg, &other.selection_bg);
        merge_field(&mut self.syntect_theme, &other.syntect_theme);
    }
}

/// Merging is associative, merging a theme into itself or merging the same
/// overlay twice changes nothing more, and an overlay with no field set
/// leaves the base as it was.
pub proof fn lemma_merge_laws(a: ThemeView, b: ThemeView, c: ThemeView)
    ensures
        merge_view(merge_view(a, b), c) == merge_view(a, merge_view(b, c)),
        merge_view(a, a) == a,
        merge_view(merge_view(a, b), b) == merge_view(a, b),
        ({
            let empty = Seq::<char>::empty();
            let blank = ThemeView {
                name: c.name,
                background: empty,
                panel: empty,
                sidebar_bg: empty,
                footer_bg: empty,
                border: empty,
                active_border: empty,
                text: empty,
                muted: empty,
                user: empty,
                assistant: empty,
                assistant_text: empty,
                success: empty,
                warning: empty,
                thinking: empty,
                tool: empty,
                dialog: empty,
                dialog_selected: empty,
                overlay: empty,
                message_bg: empty,
                heading: empty,
                code: empty,
                link: empty,
                blockquote: empty,
                list_marker: empty,
                diff_delete: empty,
                selection: empty,
                selection_bg: empty,
                syntect_theme: empty,
            };
            merge_view(a, blank) == a
        }),
{
}

/// The upper-case hex digit of `d < 16`.
pub open spec fn hex_upper(d: nat) -> char {
    if d < 10 {
        digit_char_of(d)
    } else if d == 10 {
        'A'
    } else if d == 11 {
        'B'
    } else if d == 12 {
        'C'
    } else if d == 13 {
        'D'
    } else if d == 14 {
        'E'
    } else {
        'F'
    }
}

/// The decimal digit of `d < 10`.
pub open spec fn digit_char_of(d: nat) -> char {
    crate::num::digit_char(d)
}

/// A byte as two upper-case hex digits.
pub open spec fn hex2(x: u8) -> Seq<char> {
    seq![hex_upper(x as nat / 16), hex_upper(x as nat % 16)]
}

/// A color as `#RRGGBB` in upper-case hex.
pub open spec fn spec_to_hex(c: Rgb) -> Seq<char> {
    seq!['#'] + hex2(c.r) + hex2(c.g) + hex2(c.b)
}

fn hex_upper_exec(d: u8) -> (r: char)
    requires
        d < 16,
    ensures
        r == hex_upper(d as nat),
{
    if d == 0 { '0' } else if d == 1 { '1' } else if d == 2 { '2' } else if d == 3 { '3' }
    else if d == 4 { '4' } else if d == 5 { '5' } else if d == 6 { '6' } else if d == 7 { '7' }
    else if d == 8 { '8' } else if d == 9 { '9' } else if d == 10 { 'A' } else if d == 11 { 'B' }
    else if d == 12 { 'C' } else if d == 13 { 'D' } else if d == 14 { 'E' } else { 'F' }
}

/// A color as `#RRGGBB` in upper-case hex.
pub fn to_hex(c: Rgb) -> (r: String)
    ensures
        r@ == spec_to_hex(c),
{
    let mut s = String::new();
    push_char(&mut s, '#');
    push_char(&mut s, hex_upper_exec(c.r / 16));
    push_char(&mut s, hex_upper_exec(c.r % 16));
    push_char(&mut s, hex_upper_exec(c.g / 16));
    push_char(&mut s, hex_upper_exec(c.g % 16));
    push_char(&mut s, hex_upper_exec(c.b / 16));
    push_char(&mut s, hex_upper_exec(c.b % 16));
    proof {
        assert(s@ =~= spec_to_hex(c));
    }
    s
}

/// The color a hex string names: after any leading `#`, exactly six bytes
/// that are three two-digit hex numbers (each may start with `+`, as
/// `u8::from_str_radix` allows).
pub open spec fn spec_parse_hex(s: Seq<char>) -> Option<Rgb> {
    let t = trim_start_matches(s, '#');
    if encode_utf8(t).len() != 6 || t.len() != 6 {
        None
    } else {
        match (
            parse_uint(t.subrange(0, 2), 16, 255),
            parse_uint(t.subrange(2, 4), 16, 255),
            parse_uint(t.subrange(4, 6), 16, 255),
        ) {
            (Some(r), Some(g), Some(b)) => Some(Rgb { r: r as u8, g: g as u8, b: b as u8 }),
            _ => None,
        }
    }
}

/// Whether a hex string can be cut at bytes 2 and 4 when it has six bytes;
/// parsing one that cannot would split a character.
pub open spec fn hex_safe(s: Seq<char>) -> bool {
    let b = encode_utf8(trim_start_matches(s, '#'));
    b.len() == 6 ==> is_char_boundary(b, 2) && is_char_boundary(b, 4)
}

/// Whether the UTF-8 form of `v` has exactly `n` bytes.
fn utf8_len_is(v: &Vec<char>, n: usize) -> (r: bool)
    ensures
        r == (encode_utf8(v@).len() == n),
{
    let mut acc: usize = 0;
    let mut i: usize = 0;
    proof {
        assert(v@.take(0) =~= Seq::<char>::empty());
    }
    while i < v.len()
        invariant
            i <= v.len(),
            acc == encode_utf8(v@.take(i as int)).len(),
            acc <= n,
        decreases v.len() - i,
    {
        proof {
            assert(v@.take(i + 1) =~= v@.take(i as int) + seq![v@[i as int]]);
            lemma_encode_concat(v@.take(i as int), seq![v@[i as int]]);
            lemma_encode_char(v@[i as int]);
            assert(v@ =~= v@.take(i + 1) + v@.skip(i + 1));
            lemma_encode_concat(v@.take(i + 1), v@.skip(i + 1));
        }
        let w = utf8_width_exec(v[i]);
        if w > n - acc {
            return false;
        }
        acc = acc + w;
        i += 1;
    }
    proof {
        assert(v@.take(v.len() as int) =~= v@);
    }
    acc == n
}

/// Whether a hex string is safe to parse (see `hex_safe`).
pub fn is_hex_safe(s: &str) -> (r: bool)
    ensures
        r == hex_safe(s@),
{
    let t = trim_start_matches_str(s, '#');
    let v = chars_of(t.as_str());
    if !utf8_len_is(&v, 6) {
        return true;
    }
    t.as_str().is_char_boundary(2) && t.as_str().is_char_boundary(4)
}

/// Parses a hex color (see `spec_parse_hex`).
pub fn parse_hex(s: &str) -> (r: Option<Rgb>)
    requires
        hex_safe(s@),
    ensures
        r == spec_parse_hex(s@),
{
    let t = trim_start_matches_str(s, '#');
    let v = chars_of(t.as_str());
    if !utf8_len_is(&v, 6) || v.len() != 6 {
        return None;
    }
    let r = parse_uint_exec(&v, 0, 2, 16, 255);
    let g = parse_uint_exec(&v, 2, 4, 16, 255);
    let b = parse_uint_exec(&v, 4, 6, 16, 255);
    match (r, g, b) {
        (Some(r), Some(g), Some(b)) => Some(Rgb { r: r as u8, g: g as u8, b: b as u8 }),
        _ => None,
    }
}

proof fn lemma_hex_digit(d: nat)
    requires
        d < 16,
    ensures
        digit_value(hex_upper(d), 16) == Some(d),
{
}

/// Writing a color in hex and reading it back gives the same color.
pub proof fn lemma_hex_round_trip(c: Rgb)
    ensures
        hex_safe(spec_to_hex(c)),
        spec_parse_hex(spec_to_hex(c)) == Some(c),
{
    let s = spec_to_hex(c);
    let t = trim_start_matches(s, '#');
    assert(s[0] == '#');
    lemma_trim_hash(s);
    assert(t =~= hex2(c.r) + hex2(c.g) + hex2(c.b));
    lemma_hex2(c.r);
    lemma_hex2(c.g);
    lemma_hex2(c.b);
    assert(t.subrange(0, 2) =~= hex2(c.r));
    assert(t.subrange(2, 4) =~= hex2(c.g));
    assert(t.subrange(4, 6) =~= hex2(c.b));
    lemma_ascii_encoding(t);
}

proof fn lemma_trim_hash(s: Seq<char>)
    requires
        s.len() == 7,
        s[0] == '#',
        forall|i: int| 1 <= i < 7 ==> s[i] != '#',
    ensures
        trim_start_matches(s, '#') =~= s.subrange(1, 7),
{
    crate::text::lemma_lead_c(s, '#', 0);
    crate::text::lemma_lead_c(s, '#', 1);
}

proof fn lemma_hex2(x: u8)
    ensures
        parse_uint(hex2(x), 16, 255) == Some(x as nat),
        hex2(x)[0] != '#' && hex2(x)[1] != '#',
        '0' <= hex2(x)[0] <= 'F' && '0' <= hex2(x)[1] <= 'F',
{
    let h = hex2(x);
    lemma_hex_digit(x as nat / 16);
    lemma_hex_digit(x as nat % 16);
    assert(h.drop_last() =~= seq![h[0]]);
    assert(h.drop_last().drop_last() =~= Seq::<char>::empty());
    assert(digits_value(h.drop_last().drop_last(), 16) == 0);
    assert(digits_value(h.drop_last(), 16) == x as nat / 16);
    assert(digits_value(h, 16) == (x as nat / 16) * 16 + x as nat % 16);
}

proof fn lemma_ascii_encoding(t: Seq<char>)
    requires
        t.len() == 6,
        forall|i: int| 0 <= i < 6 ==> '0' <= #[trigger] t[i] <= 'F',
    ensures
        encode_utf8(t).len() == 6,
        is_char_boundary(encode_utf8(t), 2),
        is_char_boundary(encode_utf8(t), 4),
{
    assert(vstd::utf8::is_ascii_chars(t));
    vstd::utf8::is_ascii_chars_encode_utf8(t);
    vstd::utf8::encode_utf8_valid_utf8(t);
    let b = encode_utf8(t);
    vstd::utf8::is_char_boundary_iff_not_is_continuation_byte(b, 2);
    vstd::utf8::is_char_boundary_iff_not_is_continuation_byte(b, 4);
    let c2 = t[2] as u32;
    let c4 = t[4] as u32;
    assert(c2 < 0x80 ==> (c2 as u8) < 0x80) by (bit_vector);
    assert(c4 < 0x80 ==> (c4 as u8) < 0x80) by (bit_vector);
    assert(t[2] as u8 == c2 as u8);
    assert(t[4] as u8 == c4 as u8);
}


/// The palette a theme file gives: one color per role and the name of the
/// syntax-highlighting theme.
#[derive(Clone, Debug)]
pub struct Theme {
    pub background: Rgb,
    pub panel: Rgb,
    pub sidebar_bg: Rgb,
    pub footer_bg: Rgb,
    pub border: Rgb,
    pub active_border: Rgb,
    pub text: Rgb,
    pub muted: Rgb,
    pub user: Rgb,
    pub assistant: Rgb,
    pub assistant_text: Rgb,
    pub success: Rgb,
    pub warning: Rgb,
    pub thinking: Rgb,
    pub tool: Rgb,
    pub dialog: Rgb,
    pub dialog_selected: Rgb,
    pub overlay: Rgb,
    pub message_bg: Rgb,
    pub heading: Rgb,
    pub code: Rgb,
    pub link: Rgb,
    pub blockquote: Rgb,
    pub list_marker: Rgb,
    pub diff_delete: Rgb,
    pub selection: Rgb,
    pub selection_bg: Rgb,
    pub syntect_theme: String,
}

/// A palette by its view.
pub struct ThemeColors {
    pub background: Rgb,
    pub panel: Rgb,
    pub sidebar_bg: Rgb,
    pub footer_bg: Rgb,
    pub border: Rgb,
    pub active_border: Rgb,
    pub text: Rgb,
    pub muted: Rgb,
    pub user: Rgb,
    pub assistant: Rgb,
    pub assistant_text: Rgb,
    pub success: Rgb,
    pub warning: Rgb,
    pub thinking: Rgb,
    pub tool: Rgb,
    pub dialog: Rgb,
    pub dialog_selected: Rgb,
    pub overlay: Rgb,
    pub message_bg: Rgb,
    pub heading: Rgb,
    pub code: Rgb,
    pub link: Rgb,
    pub blockquote: Rgb,
    pub list_marker: Rgb,
    pub diff_delete: Rgb,
    pub selection: Rgb,
    pub selection_bg: Rgb,
    pub syntect_theme: Seq<char>,
}

impl View for Theme {
    type V = ThemeColors;

    open spec fn view(&self) -> ThemeColors {
        ThemeColors {
            background: self.background,
            panel: self.panel,
            sidebar_bg: self.sidebar_bg,
            footer_bg: self.footer_bg,
            border: self.border,
            active_border: self.active_border,
            text: self.text,
            muted: self.muted,
            user: self.user,
            assistant: self.assistant,
            assistant_text: self.assistant_text,
            success: self.success,
            warning: self.warning,
            thinking: self.thinking,
            tool: self.tool,
            dialog: self.dialog,
            dialog_selected: self.dialog_selected,
            overlay: self.overlay,
            message_bg: self.message_bg,
            heading: self.heading,
            code: self.code,
            link: self.link,
            blockquote: self.blockquote,
            list_marker: self.list_marker,
            diff_delete: self.diff_delete,
            selection: self.selection,
            selection_bg: self.selection_bg,
            syntect_theme: self.syntect_theme@,
        }
    }
}

/// The color strings of a theme file in the order they are read; the
/// assistant's text color falls back to the assistant color when unset.
pub open spec fn color_fields(v: ThemeView) -> Seq<Seq<char>> {
    seq![
        v.background,
        v.panel,
        v.sidebar_bg,
        v.footer_bg,
        v.border,
        v.active_border,
        v.text,
        v.muted,
        v.user,
        v.assistant,
        if v.assistant_text.len() == 0 { v.assistant } else { v.assistant_text },
        v.success,
        v.warning,
        v.thinking,
        v.tool,
        v.dialog,
        v.dialog_selected,
        v.overlay,
        v.message_bg,
        v.heading,
        v.code,
        v.link,
        v.blockquote,
        v.list_marker,
        v.diff_delete,
        v.selection,
        v.selection_bg,
    ]
}

/// Whether reading the colors in order never cuts a character: each one
/// read (those up to the first that fails) is safe to parse.
pub open spec fn colors_safe(fields: Seq<Seq<char>>, i: int) -> bool
    decreases fields.len() - i,
{
    if i < 0 || i >= fields.len() {
        true
    } else {
        hex_safe(fields[i]) && (spec_parse_hex(fields[i]) is Some ==> colors_safe(fields, i + 1))
    }
}

/// Every string parsed as a color, in order; none if one does not parse.
pub open spec fn parse_all(c: Seq<Seq<char>>) -> Option<Seq<Rgb>>
    decreases c.len(),
{
    if c.len() == 0 {
        Some(seq![])
    } else {
        match (parse_all(c.drop_last()), spec_parse_hex(c.last())) {
            (Some(p), Some(x)) => Some(p.push(x)),
            _ => None,
        }
    }
}

/// The palette with the colors in the order of `color_fields`.
pub open spec fn palette(cols: Seq<Rgb>, syntect_theme: Seq<char>) -> ThemeColors {
    ThemeColors {
        background: cols[0],
        panel: cols[1],
        sidebar_bg: cols[2],
        footer_bg: cols[3],
        border: cols[4],
        active_border: cols[5],
        text: cols[6],
        muted: cols[7],
        user: cols[8],
        assistant: cols[9],
        assistant_text: cols[10],
        success: cols[11],
        warning: cols[12],
        thinking: cols[13],
        tool: cols[14],
        dialog: cols[15],
        dialog_selected: cols[16],
        overlay: cols[17],
        message_bg: cols[18],
        heading: cols[19],
        code: cols[20],
        link: cols[21],
        blockquote: cols[22],
        list_marker: cols[23],
        diff_delete: cols[24],
        selection: cols[25],
        selection_bg: cols[26],
        syntect_theme,
    }
}

/// The palette of a theme file: every color parsed (see `color_fields`),
/// the syntax theme defaulting to `base16-ocean.dark`; none when a color
/// does not parse.
pub open spec fn spec_to_theme(v: ThemeView) -> Option<ThemeColors> {
    match parse_all(color_fields(v)) {
        Some(cols) => Some(
            palette(
                cols,
                if v.syntect_theme.len() == 0 {
                    "base16-ocean.dark"@
                } else {
                    v.syntect_theme
                },
            ),
        ),
        None => None,
    }
}

proof fn lemma_parse_all(c: Seq<Seq<char>>, cols: Seq<Rgb>)
    requires
        c.len() == cols.len(),
        forall|k: int| 0 <= k < c.len() ==> spec_parse_hex(#[trigger] c[k]) == Some(cols[k]),
    ensures
        parse_all(c) == Some(cols),
    decreases c.len(),
{
    if c.len() > 0 {
        assert forall|k: int| 0 <= k < c.drop_last().len() implies spec_parse_hex(
            #[trigger] c.drop_last()[k],
        ) == Some(cols.drop_last()[k]) by {
            assert(c.drop_last()[k] == c[k]);
        }
        lemma_parse_all(c.drop_last(), cols.drop_last());
        assert(cols.drop_last().push(cols.last()) =~= cols);
    }
}

fn parse_colors(c: &Vec<&str>) -> (r: Option<Vec<Rgb>>)
    requires
        colors_safe(c@.map_values(|x: &str| x@), 0),
    ensures
        match r {
            Some(v) => parse_all(c@.map_values(|x: &str| x@)) == Some(v@),
            None => parse_all(c@.map_values(|x: &str| x@)) is None,
        },
{
    let ghost cs = c@.map_values(|x: &str| x@);
    let mut out: Vec<Rgb> = Vec::new();
    let mut i: usize = 0;
    proof {
        assert(cs.take(0) =~= Seq::<Seq<char>>::empty());
    }
    while i < c.len()
        invariant
            cs == c@.map_values(|x: &str| x@),
            i <= c.len(),
            colors_safe(cs, i as int),
            parse_all(cs.take(i as int)) == Some(out@),
        decreases c.len() - i,
    {
        proof {
            assert(cs.take(i + 1).drop_last() =~= cs.take(i as int));
            assert(cs[i as int] == c@[i as int]@);
        }
        match parse_hex(c[i]) {
            Some(x) => {
                out.push(x);
            },
            None => {
                proof {
                    lemma_parse_all_none(cs, i as int);
                }
                return None;
            },
        }
        i += 1;
    }
    proof {
        assert(cs.take(c.len() as int) =~= cs);
    }
    Some(out)
}

proof fn lemma_parse_all_len(cs: Seq<Seq<char>>)
    ensures
        parse_all(cs) matches Some(p) ==> p.len() == cs.len(),
    decreases cs.len(),
{
    if cs.len() > 0 {
        lemma_parse_all_len(cs.drop_last());
    }
}

proof fn lemma_parse_all_none(cs: Seq<Seq<char>>, i: int)
    requires
        0 <= i < cs.len(),
        spec_parse_hex(cs[i]) is None,
    ensures
        parse_all(cs) is None,
    decreases cs.len(),
{
    if i < cs.len() - 1 {
        assert(cs.drop_last()[i] == cs[i]);
        lemma_parse_all_none(cs.drop_last(), i);
    }
}

impl ThemeFile {
    /// The palette of this file (see `spec_to_theme`).
    pub fn to_theme(&self) -> (r: Option<Theme>)
        requires
            colors_safe(color_fields(self@), 0),
        ensures
            match r {
                Some(t) => spec_to_theme(self@) == Some(t@),
                None => spec_to_theme(self@) is None,
            },
    {
        let at_src = if self.assistant_text.unicode_len() == 0 {
            self.assistant.as_str()
        } else {
            self.assistant_text.as_str()
        };
        let fields: Vec<&str> = vec![
            self.background.as_str(),
            self.panel.as_str(),
            self.sidebar_bg.as_str(),
            self.footer_bg.as_str(),
            self.border.as_str(),
            self.active_border.as_str(),
            self.text.as_str(),
            self.muted.as_str(),
            self.user.as_str(),
            self.assistant.as_str(),
            at_src,
            self.success.as_str(),
            self.warning.as_str(),
            self.thinking.as_str(),
            self.tool.as_str(),
            self.dialog.as_str(),
            self.dialog_selected.as_str(),
            self.overlay.as_str(),
            self.message_bg.as_str(),
            self.heading.as_str(),
            self.code.as_str(),
            self.link.as_str(),
            self.blockquote.as_str(),
            self.list_marker.as_str(),
            self.diff_delete.as_str(),
            self.selection.as_str(),
            self.selection_bg.as_str(),
        ];
        proof {
            assert(fields@.map_values(|x: &str| x@) =~= color_fields(self@));
        }
        let cols = match parse_colors(&fields) {
            Some(c) => c,
            None => {
                return None;
            },
        };
        let syntect_theme = if self.syntect_theme.unicode_len() == 0 {
            String::from_str("base16-ocean.dark")
        } else {
            self.syntect_theme.clone()
        };
        proof {
            assert(cols@.len() == 27) by {
                lemma_parse_all_len(color_fields(self@));
            }
        }
        let t = Theme {
            background: cols[0],
            panel: cols[1],
            sidebar_bg: cols[2],
            footer_bg: cols[3],
            border: cols[4],
            active_border: cols[5],
            text: cols[6],
            muted: cols[7],
            user: cols[8],
            assistant: cols[9],
            assistant_text: cols[10],
            success: cols[11],
            warning: cols[12],
            thinking: cols[13],
            tool: cols[14],
            dialog: cols[15],
            dialog_selected: cols[16],
            overlay: cols[17],
            message_bg: cols[18],
            heading: cols[19],
            code: cols[20],
            link: cols[21],
            blockquote: cols[22],
            list_marker: cols[23],
            diff_delete: cols[24],
            selection: cols[25],
            selection_bg: cols[26],
            syntect_theme,
        };
        Some(t)
    }

    /// Whether `to_theme` can read this file without cutting a character
    /// (see `colors_safe`).
    pub fn colors_readable(&self) -> (r: bool)
        ensures
            r == colors_safe(color_fields(self@), 0),
    {
        let at_src = if self.assistant_text.unicode_len() == 0 {
            self.assistant.as_str()
        } else {
            self.assistant_text.as_str()
        };
        let fields: Vec<&str> = vec![
            self.background.as_str(),
            self.panel.as_str(),
            self.sidebar_bg.as_str(),
            self.footer_bg.as_str(),
            self.border.as_str(),
            self.active_border.as_str(),
            self.text.as_str(),
            self.muted.as_str(),
            self.user.as_str(),
            self.assistant.as_str(),
            at_src,
            self.success.as_str(),
            self.warning.as_str(),
            self.thinking.as_str(),
            self.tool.as_str(),
            self.dialog.as_str(),
            self.dialog_selected.as_str(),
            self.overlay.as_str(),
            self.message_bg.as_str(),
            self.heading.as_str(),
            self.code.as_str(),
            self.link.as_str(),
            self.blockquote.as_str(),
            self.list_marker.as_str(),
            self.diff_delete.as_str(),
            self.selection.as_str(),
            self.selection_bg.as_str(),
        ];
        let ghost cs = color_fields(self@);
        proof {
            assert(fields@.map_values(|x: &str| x@) =~= cs);
        }
        let mut i: usize = 0;
        while i < fields.len()
            invariant
                cs == fields@.map_values(|x: &str| x@),
                cs == color_fields(self@),
                i <= fields.len(),
                colors_safe(cs, 0) == colors_safe(cs, i as int),
            decreases fields.len() - i,
        {
            proof {
                assert(cs.len() == fields.len());
                assert(cs[i as int] == fields@[i as int]@);
            }
            if !is_hex_safe(fields[i]) {
                return false;
            }
            if parse_hex(fields[i]).is_none() {
                return true;
            }
            i += 1;
        }
        proof {
            assert(cs.len() == fields.len());
        }
        true
    }

    /// The file form of a palette: each color in hex, no name.
    pub fn from_theme(t: &Theme) -> (r: ThemeFile)
        ensures
            r@ == file_of(t@),
    {
        ThemeFile {
            name: String::new(),
            background: to_hex(t.background),
            panel: to_hex(t.panel),
            sidebar_bg: to_hex(t.sidebar_bg),
            footer_bg: to_hex(t.footer_bg),
            border: to_hex(t.border),
            active_border: to_hex(t.active_border),
            text: to_hex(t.text),
            muted: to_hex(t.muted),
            user: to_hex(t.user),
            assistant: to_hex(t.assistant),
            assistant_text: to_hex(t.assistant_text),
            success: to_hex(t.success),
            warning: to_hex(t.warning),
            thinking: to_hex(t.thinking),
            tool: to_hex(t.tool),
            dialog: to_hex(t.dialog),
            dialog_selected: to_hex(t.dialog_selected),
            overlay: to_hex(t.overlay),
            message_bg: to_hex(t.message_bg),
            heading: to_hex(t.heading),
            code: to_hex(t.code),
            link: to_hex(t.link),
            blockquote: to_hex(t.blockquote),
            list_marker: to_hex(t.list_marker),
            diff_delete: to_hex(t.diff_delete),
            selection: to_hex(t.selection),
            selection_bg: to_hex(t.selection_bg),
            syntect_theme: t.syntect_theme.clone(),
        }
    }
}

/// The file form of a palette: each color in hex, no name.
pub open spec fn file_of(t: ThemeColors) -> ThemeView {
    ThemeView {
        name: Seq::empty(),
        background: spec_to_hex(t.background),
        panel: spec_to_hex(t.panel),
        sidebar_bg: spec_to_hex(t.sidebar_bg),
        footer_bg: spec_to_hex(t.footer_bg),
        border: spec_to_hex(t.border),
        active_border: spec_to_hex(t.active_border),
        text: spec_to_hex(t.text),
        muted: spec_to_hex(t.muted),
        user: spec_to_hex(t.user),
        assistant: spec_to_hex(t.assistant),
        assistant_text: spec_to_hex(t.assistant_text),
        success: spec_to_hex(t.success),
        warning: spec_to_hex(t.warning),
        thinking: spec_to_hex(t.thinking),
        tool: spec_to_hex(t.tool),
        dialog: spec_to_hex(t.dialog),
        dialog_selected: spec_to_hex(t.dialog_selected),
        overlay: spec_to_hex(t.overlay),
        message_bg: spec_to_hex(t.message_bg),
        heading: spec_to_hex(t.heading),
        code: spec_to_hex(t.code),
        link: spec_to_hex(t.link),
        blockquote: spec_to_hex(t.blockquote),
        list_marker: spec_to_hex(t.list_marker),
        diff_delete: spec_to_hex(t.diff_delete),
        selection: spec_to_hex(t.selection),
        selection_bg: spec_to_hex(t.selection_bg),
        syntect_theme: t.syntect_theme,
    }
}

/// A palette written as a theme file reads back as the same palette, when
/// it names a syntax theme.
#[verifier::rlimit(50)]
pub proof fn lemma_theme_round_trip(t: ThemeColors)
    requires
        t.syntect_theme.len() > 0,
    ensures
        colors_safe(color_fields(file_of(t)), 0),
        spec_to_theme(file_of(t)) == Some(t),
{
    let f = file_of(t);
    let hs: Seq<Rgb> = seq![
        t.background,
        t.panel,
        t.sidebar_bg,
        t.footer_bg,
        t.border,
        t.active_border,
        t.text,
        t.muted,
        t.user,
        t.assistant,
        t.assistant_text,
        t.success,
        t.warning,
        t.thinking,
        t.tool,
        t.dialog,
        t.dialog_selected,
        t.overlay,
        t.message_bg,
        t.heading,
        t.code,
        t.link,
        t.blockquote,
        t.list_marker,
        t.diff_delete,
        t.selection,
        t.selection_bg,
    ];
    let c = color_fields(f);
    assert(spec_to_hex(t.assistant_text).len() == 7);
    assert(c =~= hs.map_values(|x: Rgb| spec_to_hex(x)));
    assert forall|k: int| 0 <= k < c.len() implies hex_safe(#[trigger] c[k]) && spec_parse_hex(c[k])
        == Some(hs[k]) by {
        lemma_hex_round_trip(hs[k]);
    }
    lemma_colors_safe_from(c, 0);
    lemma_parse_all(c, hs);
    assert(palette(hs, t.syntect_theme) == t);
}

proof fn lemma_colors_safe_from(c: Seq<Seq<char>>, i: int)
    requires
        0 <= i <= c.len(),
        forall|k: int| 0 <= k < c.len() ==> hex_safe(#[trigger] c[k]) && spec_parse_hex(c[k]) is Some,
    ensures
        colors_safe(c, i),
    decreases c.len() - i,
{
    if i < c.len() {
        lemma_colors_safe_from(c, i + 1);
    }
}

/// The dark palette by its view.
pub open spec fn dark_colors() -> ThemeColors {
    ThemeColors {
        background: Rgb { r: 0, g: 0, b: 0 },
        panel: Rgb { r: 22, g: 22, b: 26 },
        sidebar_bg: Rgb { r: 13, g: 13, b: 16 },
        footer_bg: Rgb { r: 10, g: 10, b: 13 },
        border: Rgb { r: 42, g: 42, b: 48 },
        active_border: Rgb { r: 85, g: 85, b: 95 },
        text: Rgb { r: 215, g: 215, b: 220 },
        muted: Rgb { r: 130, g: 130, b: 140 },
        user: Rgb { r: 204, g: 174, b: 100 },
        assistant: Rgb { r: 110, g: 185, b: 165 },
        assistant_text: Rgb { r: 157, g: 201, b: 188 },
        success: Rgb { r: 95, g: 170, b: 105 },
        warning: Rgb { r: 205, g: 175, b: 85 },
        thinking: Rgb { r: 155, g: 125, b: 200 },
        tool: Rgb { r: 120, g: 155, b: 195 },
        dialog: Rgb { r: 28, g: 28, b: 34 },
        dialog_selected: Rgb { r: 160, g: 180, b: 205 },
        overlay: Rgb { r: 0, g: 0, b: 0 },
        message_bg: Rgb { r: 24, g: 24, b: 30 },
        heading: Rgb { r: 157, g: 124, b: 216 },
        code: Rgb { r: 127, g: 216, b: 143 },
        link: Rgb { r: 250, g: 178, b: 131 },
        blockquote: Rgb { r: 229, g: 192, b: 123 },
        list_marker: Rgb { r: 86, g: 182, b: 194 },
        diff_delete: Rgb { r: 200, g: 110, b: 110 },
        selection: Rgb { r: 160, g: 180, b: 205 },
        selection_bg: Rgb { r: 28, g: 28, b: 34 },
        syntect_theme: "base16-ocean.dark"@,
    }
}

impl Theme {
    /// The dark palette, used when no theme can be read.
    pub fn dark() -> (r: Self)
        ensures
            r@ == dark_colors(),
    {
        Theme {
            background: Rgb { r: 0, g: 0, b: 0 },
            panel: Rgb { r: 22, g: 22, b: 26 },
            sidebar_bg: Rgb { r: 13, g: 13, b: 16 },
            footer_bg: Rgb { r: 10, g: 10, b: 13 },
            border: Rgb { r: 42, g: 42, b: 48 },
            active_border: Rgb { r: 85, g: 85, b: 95 },
            text: Rgb { r: 215, g: 215, b: 220 },
            muted: Rgb { r: 130, g: 130, b: 140 },
            user: Rgb { r: 204, g: 174, b: 100 },
            assistant: Rgb { r: 110, g: 185, b: 165 },
            assistant_text: Rgb { r: 157, g: 201, b: 188 },
            success: Rgb { r: 95, g: 170, b: 105 },
            warning: Rgb { r: 205, g: 175, b: 85 },
            thinking: Rgb { r: 155, g: 125, b: 200 },
            tool: Rgb { r: 120, g: 155, b: 195 },
            dialog: Rgb { r: 28, g: 28, b: 34 },
            dialog_selected: Rgb { r: 160, g: 180, b: 205 },
            overlay: Rgb { r: 0, g: 0, b: 0 },
            message_bg: Rgb { r: 24, g: 24, b: 30 },
            heading: Rgb { r: 157, g: 124, b: 216 },
            code: Rgb { r: 127, g: 216, b: 143 },
            link: Rgb { r: 250, g: 178, b: 131 },
            blockquote: Rgb { r: 229, g: 192, b: 123 },
            list_marker: Rgb { r: 86, g: 182, b: 194 },
            diff_delete: Rgb { r: 200, g: 110, b: 110 },
            selection: Rgb { r: 160, g: 180, b: 205 },
            selection_bg: Rgb { r: 28, g: 28, b: 34 },
            syntect_theme: String::from_str("base16-ocean.dark"),
        }
    }

    /// The syntax-highlighting theme's name.
    pub fn syntect_theme(&self) -> (r: &str)
        ensures
            r@ == self.syntect_theme@,
    {
        self.syntect_theme.as_str()
    }
}

/// The file a theme setting comes to: `base` with `overlay` merged in
/// where there is one.
pub open spec fn resolved_file(base: ThemeView, overlay: Option<ThemeView>) -> ThemeView {
    match overlay {
        Some(o) => merge_view(base, o),
        None => base,
    }
}

/// The palette of a theme setting once read: the palette of `base` with
/// `overlay` merged in, or the dark palette when a color of that file does
/// not parse.
pub fn resolve_theme(base: ThemeFile, overlay: Option<&ThemeFile>) -> (r: Theme)
    requires
        colors_safe(
            color_fields(
                resolved_file(
                    base@,
                    match overlay {
                        Some(o) => Some(o@),
                        None => None,
                    },
                ),
            ),
            0,
        ),
    ensures
        r@ == (match spec_to_theme(
            resolved_file(
                base@,
                match overlay {
                    Some(o) => Some(o@),
                    None => None,
                },
            ),
        ) {
            Some(t) => t,
            None => dark_colors(),
        }),
{
    let mut file = base;
    match overlay {
        Some(o) => file.merge(o),
        None => {},
    }
    match file.to_theme() {
        Some(t) => t,
        None => Theme::dark(),
    }
}

/// The built-in dark theme as a file: the dark palette in hex. It reads
/// back as the dark palette.
pub fn builtin_dark() -> (r: ThemeFile)
    ensures
        r@ == file_of(dark_colors()),
        colors_safe(color_fields(r@), 0),
        spec_to_theme(r@) == Some(dark_colors()),
{
    let r = ThemeFile::from_theme(&Theme::dark());
    proof {
        reveal_strlit("base16-ocean.dark");
        lemma_theme_round_trip(dark_colors());
    }
    r
}

/// The light palette by its view: dark text on a pale ground.
pub open spec fn light_colors() -> ThemeColors {
    ThemeColors {
        background: Rgb { r: 250, g: 250, b: 250 },
        panel: Rgb { r: 240, g: 240, b: 243 },
        sidebar_bg: Rgb { r: 235, g: 235, b: 240 },
        footer_bg: Rgb { r: 230, g: 230, b: 235 },
        border: Rgb { r: 200, g: 200, b: 208 },
        active_border: Rgb { r: 140, g: 140, b: 155 },
        text: Rgb { r: 30, g: 30, b: 35 },
        muted: Rgb { r: 110, g: 110, b: 120 },
        user: Rgb { r: 160, g: 110, b: 20 },
        assistant: Rgb { r: 20, g: 120, b: 100 },
        assistant_text: Rgb { r: 40, g: 90, b: 80 },
        success: Rgb { r: 30, g: 130, b: 60 },
        warning: Rgb { r: 170, g: 120, b: 0 },
        thinking: Rgb { r: 110, g: 70, b: 170 },
        tool: Rgb { r: 40, g: 90, b: 160 },
        dialog: Rgb { r: 245, g: 245, b: 248 },
        dialog_selected: Rgb { r: 40, g: 90, b: 160 },
        overlay: Rgb { r: 220, g: 220, b: 225 },
        message_bg: Rgb { r: 244, g: 244, b: 247 },
        heading: Rgb { r: 110, g: 60, b: 180 },
        code: Rgb { r: 20, g: 120, b: 60 },
        link: Rgb { r: 190, g: 90, b: 30 },
        blockquote: Rgb { r: 150, g: 110, b: 30 },
        list_marker: Rgb { r: 20, g: 120, b: 140 },
        diff_delete: Rgb { r: 190, g: 50, b: 50 },
        selection: Rgb { r: 30, g: 30, b: 35 },
        selection_bg: Rgb { r: 200, g: 215, b: 240 },
        syntect_theme: "InspiredGitHub"@,
    }
}

/// The hacker palette by its view: green phosphor on black.
pub open spec fn hacker_colors() -> ThemeColors {
    ThemeColors {
        background: Rgb { r: 0, g: 0, b: 0 },
        panel: Rgb { r: 5, g: 15, b: 5 },
        sidebar_bg: Rgb { r: 3, g: 10, b: 3 },
        footer_bg: Rgb { r: 2, g: 8, b: 2 },
        border: Rgb { r: 0, g: 80, b: 0 },
        active_border: Rgb { r: 0, g: 160, b: 0 },
        text: Rgb { r: 0, g: 255, b: 65 },
        muted: Rgb { r: 0, g: 140, b: 40 },
        user: Rgb { r: 180, g: 255, b: 120 },
        assistant: Rgb { r: 0, g: 220, b: 90 },
        assistant_text: Rgb { r: 0, g: 200, b: 80 },
        success: Rgb { r: 0, g: 255, b: 0 },
        warning: Rgb { r: 200, g: 255, b: 0 },
        thinking: Rgb { r: 0, g: 180, b: 120 },
        tool: Rgb { r: 60, g: 255, b: 160 },
        dialog: Rgb { r: 0, g: 20, b: 0 },
        dialog_selected: Rgb { r: 0, g: 255, b: 65 },
        overlay: Rgb { r: 0, g: 0, b: 0 },
        message_bg: Rgb { r: 0, g: 12, b: 0 },
        heading: Rgb { r: 120, g: 255, b: 120 },
        code: Rgb { r: 0, g: 230, b: 120 },
        link: Rgb { r: 160, g: 255, b: 80 },
        blockquote: Rgb { r: 100, g: 200, b: 60 },
        list_marker: Rgb { r: 0, g: 255, b: 140 },
        diff_delete: Rgb { r: 255, g: 60, b: 60 },
        selection: Rgb { r: 0, g: 0, b: 0 },
        selection_bg: Rgb { r: 0, g: 200, b: 60 },
        syntect_theme: "base16-eighties.dark"@,
    }
}

fn light_theme() -> (r: Theme)
    ensures
        r@ == light_colors(),
{
    Theme {
        background: Rgb { r: 250, g: 250, b: 250 },
        panel: Rgb { r: 240, g: 240, b: 243 },
        sidebar_bg: Rgb { r: 235, g: 235, b: 240 },
        footer_bg: Rgb { r: 230, g: 230, b: 235 },
        border: Rgb { r: 200, g: 200, b: 208 },
        active_border: Rgb { r: 140, g: 140, b: 155 },
        text: Rgb { r: 30, g: 30, b: 35 },
        muted: Rgb { r: 110, g: 110, b: 120 },
        user: Rgb { r: 160, g: 110, b: 20 },
        assistant: Rgb { r: 20, g: 120, b: 100 },
        assistant_text: Rgb { r: 40, g: 90, b: 80 },
        success: Rgb { r: 30, g: 130, b: 60 },
        warning: Rgb { r: 170, g: 120, b: 0 },
        thinking: Rgb { r: 110, g: 70, b: 170 },
        tool: Rgb { r: 40, g: 90, b: 160 },
        dialog: Rgb { r: 245, g: 245, b: 248 },
        dialog_selected: Rgb { r: 40, g: 90, b: 160 },
        overlay: Rgb { r: 220, g: 220, b: 225 },
        message_bg: Rgb { r: 244, g: 244, b: 247 },
        heading: Rgb { r: 110, g: 60, b: 180 },
        code: Rgb { r: 20, g: 120, b: 60 },
        link: Rgb { r: 190, g: 90, b: 30 },
        blockquote: Rgb { r: 150, g: 110, b: 30 },
        list_marker: Rgb { r: 20, g: 120, b: 140 },
        diff_delete: Rgb { r: 190, g: 50, b: 50 },
        selection: Rgb { r: 30, g: 30, b: 35 },
        selection_bg: Rgb { r: 200, g: 215, b: 240 },
        syntect_theme: String::from_str("InspiredGitHub"),
    }
}

fn hacker_theme() -> (r: Theme)
    ensures
        r@ == hacker_colors(),
{
    Theme {
        background: Rgb { r: 0, g: 0, b: 0 },
        panel: Rgb { r: 5, g: 15, b: 5 },
        sidebar_bg: Rgb { r: 3, g: 10, b: 3 },
        footer_bg: Rgb { r: 2, g: 8, b: 2 },
        border: Rgb { r: 0, g: 80, b: 0 },
        active_border: Rgb { r: 0, g: 160, b: 0 },
        text: Rgb { r: 0, g: 255, b: 65 },
        muted: Rgb { r: 0, g: 140, b: 40 },
        user: Rgb { r: 180, g: 255, b: 120 },
        assistant: Rgb { r: 0, g: 220, b: 90 },
        assistant_text: Rgb { r: 0, g: 200, b: 80 },
        success: Rgb { r: 0, g: 255, b: 0 },
        warning: Rgb { r: 200, g: 255, b: 0 },
        thinking: Rgb { r: 0, g: 180, b: 120 },
        tool: Rgb { r: 60, g: 255, b: 160 },
        dialog: Rgb { r: 0, g: 20, b: 0 },
        dialog_selected: Rgb { r: 0, g: 255, b: 65 },
        overlay: Rgb { r: 0, g: 0, b: 0 },
        message_bg: Rgb { r: 0, g: 12, b: 0 },
        heading: Rgb { r: 120, g: 255, b: 120 },
        code: Rgb { r: 0, g: 230, b: 120 },
        link: Rgb { r: 160, g: 255, b: 80 },
        blockquote: Rgb { r: 100, g: 200, b: 60 },
        list_marker: Rgb { r: 0, g: 255, b: 140 },
        diff_delete: Rgb { r: 255, g: 60, b: 60 },
        selection: Rgb { r: 0, g: 0, b: 0 },
        selection_bg: Rgb { r: 0, g: 200, b: 60 },
        syntect_theme: String::from_str("base16-eighties.dark"),
    }
}

/// The built-in light theme as a file. It reads back as the light palette.
pub fn builtin_light() -> (r: ThemeFile)
    ensures
        r@ == file_of(light_colors()),
        colors_safe(color_fields(r@), 0),
        spec_to_theme(r@) == Some(light_colors()),
{
    let r = ThemeFile::from_theme(&light_theme());
    proof {
        reveal_strlit("InspiredGitHub");
        lemma_theme_round_trip(light_colors());
    }
    r
}

/// The built-in hacker theme as a file: green phosphor on a black ground. It reads back as the hacker palette.
pub fn builtin_hacker() -> (r: ThemeFile)
    ensures
        r@ == file_of(hacker_colors()),
        colors_safe(color_fields(r@), 0),
        spec_to_theme(r@) == Some(hacker_colors()),
{
    let r = ThemeFile::from_theme(&hacker_theme());
    proof {
        reveal_strlit("base16-eighties.dark");
        lemma_theme_round_trip(hacker_colors());
    }
    r
}

/// A built-in theme by name: `dark`, `light` or `hacker`; any other name
/// finds none.
pub fn builtin(name: &str) -> (r: Option<ThemeFile>)
    ensures
        match r {
            Some(f) => (name@ == "dark"@ && f@ == file_of(dark_colors())) || (name@ == "light"@ && f@
                == file_of(light_colors())) || (name@ == "hacker"@ && f@ == file_of(hacker_colors())),
            None => name@ != "dark"@ && name@ != "light"@ && name@ != "hacker"@,
        },
{
    if str_eq(name, "dark") {
        Some(builtin_dark())
    } else if str_eq(name, "light") {
        Some(builtin_light())
    } else if str_eq(name, "hacker") {
        Some(builtin_hacker())
    } else {
        None
    }
}

} // verus!
