//! Fitting rendered lines to the session panel: wrapping a line of styled
//! spans at a width, and the window of rows that is shown.

use vstd::prelude::*;
use crate::styled::{span_lines, spans_view, StyledSpan, TextStyle};
use crate::text::{chars_of, push_char};
use crate::width::{char_columns, str_columns};

verus! {

/// The columns a character takes when wrapping: its width, none for a
/// control character.
pub open spec fn wrap_columns(c: char) -> nat {
    match char_columns(c) {
        Some(w) => w,
        None => 0,
    }
}

/// The columns of a line: the widths of its spans added up.
pub open spec fn line_columns(spans: Seq<(Seq<char>, TextStyle)>) -> nat
    decreases spans.len(),
{
    if spans.len() == 0 {
        0
    } else {
        line_columns(spans.drop_last()) + str_columns(spans.last().0)
    }
}

/// The block-quote prefix repeated on every wrapped line: the first span,
/// where its text starts with `>`.
pub open spec fn quote_prefix(spans: Seq<(Seq<char>, TextStyle)>) -> Option<(Seq<char>, TextStyle)> {
    if spans.len() > 0 && spans[0].0.len() > 0 && spans[0].0[0] == '>' {
        Some(spans[0])
    } else {
        None
    }
}

/// Where wrapping stands: the finished lines, the spans of the line being
/// filled, the columns it takes so far, and the text of the span being
/// cut.
pub struct WrapState {
    pub done: Seq<Seq<(Seq<char>, TextStyle)>>,
    pub cur: Seq<(Seq<char>, TextStyle)>,
    pub used: int,
    pub buf: Seq<char>,
}

/// A new line after a break: the prefix, if there is one, starts it.
pub open spec fn break_line(
    st: WrapState,
    style: TextStyle,
    prefix: Option<(Seq<char>, TextStyle)>,
) -> WrapState {
    let done = st.done.push(st.cur.push((st.buf, style)));
    match prefix {
        Some(p) => WrapState { done: done, cur: seq![p], used: str_columns(p.0) as int, buf: seq![] },
        None => WrapState { done: done, cur: seq![], used: 0, buf: seq![] },
    }
}

/// One more character of a span in `style`: where it would run past
/// `width` and the span has text on this line already, the line is broken
/// before it.
pub open spec fn wrap_char(
    st: WrapState,
    c: char,
    style: TextStyle,
    width: nat,
    prefix: Option<(Seq<char>, TextStyle)>,
) -> WrapState {
    let w = wrap_columns(c);
    let st1 = if st.used + w > width && st.buf.len() > 0 {
        break_line(st, style, prefix)
    } else {
        st
    };
    WrapState { buf: st1.buf.push(c), used: st1.used + w, ..st1 }
}

/// The characters of `t` taken one by one.
pub open spec fn wrap_text(
    st: WrapState,
    t: Seq<char>,
    style: TextStyle,
    width: nat,
    prefix: Option<(Seq<char>, TextStyle)>,
) -> WrapState
    decreases t.len(),
{
    if t.len() == 0 {
        st
    } else {
        wrap_char(wrap_text(st, t.drop_last(), style, width, prefix), t.last(), style, width, prefix)
    }
}

/// One more span: its characters, then what is left of it on the line.
pub open spec fn wrap_span(
    st: WrapState,
    sp: (Seq<char>, TextStyle),
    width: nat,
    prefix: Option<(Seq<char>, TextStyle)>,
) -> WrapState {
    let st1 = wrap_text(WrapState { buf: seq![], ..st }, sp.0, sp.1, width, prefix);
    if st1.buf.len() > 0 {
        WrapState { cur: st1.cur.push((st1.buf, sp.1)), buf: seq![], ..st1 }
    } else {
        st1
    }
}

/// The first `k` spans taken one by one.
pub open spec fn wrap_spans(
    spans: Seq<(Seq<char>, TextStyle)>,
    k: nat,
    width: nat,
    prefix: Option<(Seq<char>, TextStyle)>,
) -> WrapState
    decreases k,
{
    if k == 0 || k > spans.len() {
        WrapState { done: seq![], cur: seq![], used: 0, buf: seq![] }
    } else {
        wrap_span(wrap_spans(spans, (k - 1) as nat, width, prefix), spans[k - 1], width, prefix)
    }
}

/// A line wrapped at `width` columns: kept whole when it fits (or the
/// width is zero); else cut into lines, greedily, at characters that
/// would run past the width, a block quote's prefix repeated on every
/// new line.
pub open spec fn spec_wrap_line(spans: Seq<(Seq<char>, TextStyle)>, width: nat) -> Seq<Seq<(Seq<char>, TextStyle)>> {
    if width == 0 || line_columns(spans) <= width {
        seq![spans]
    } else {
        let st = wrap_spans(spans, spans.len(), width, quote_prefix(spans));
        let res = if st.cur.len() > 0 {
            st.done.push(st.cur)
        } else {
            st.done
        };
        if res.len() == 0 {
            seq![spans]
        } else {
            res
        }
    }
}

/// `UnicodeWidthChar::width` through the width module.
fn wrap_width(c: char) -> (r: usize)
    ensures
        r == wrap_columns(c),
        r <= 3,
{
    match crate::width::char_width(c) {
        Some(w) => w,
        None => 0,
    }
}

/// A copy of a line of spans.
pub fn copy_spans(v: &Vec<StyledSpan>) -> (r: Vec<StyledSpan>)
    ensures
        spans_view(r@) == spans_view(v@),
{
    let mut out: Vec<StyledSpan> = Vec::new();
    let mut i: usize = 0;
    while i < v.len()
        invariant
            i <= v.len(),
            spans_view(out@) =~= spans_view(v@).take(i as int),
        decreases v.len() - i,
    {
        let ghost before = spans_view(out@);
        let t = v[i].text.clone();
        out.push(StyledSpan { text: t, style: v[i].style });
        proof {
            assert(spans_view(out@) =~= before.push((t@, v@[i as int].style)));
            assert(spans_view(v@).take(i + 1) =~= spans_view(v@).take(i as int).push(spans_view(v@)[i as int]));
        }
        i += 1;
    }
    proof {
        assert(spans_view(v@).take(v.len() as int) =~= spans_view(v@));
    }
    out
}

/// Whether the line fits in `width` columns.
fn fits(spans: &Vec<StyledSpan>, width: usize) -> (r: bool)
    ensures
        r == (line_columns(spans_view(spans@)) <= width),
{
    let ghost sv = spans_view(spans@);
    let mut total: usize = 0;
    let mut i: usize = 0;
    while i < spans.len()
        invariant
            sv == spans_view(spans@),
            i <= spans.len(),
            total == line_columns(sv.take(i as int)),
            total <= width,
        decreases spans.len() - i,
    {
        proof {
            assert(sv.take(i + 1).drop_last() =~= sv.take(i as int));
        }
        let w = crate::width::display_width(spans[i].text.as_str());
        if w > width - total {
            proof {
                lemma_line_columns_grows(sv, i as int + 1);
            }
            return false;
        }
        total = total + w;
        i += 1;
    }
    proof {
        assert(sv.take(spans.len() as int) =~= sv);
    }
    true
}

proof fn lemma_line_columns_grows(sv: Seq<(Seq<char>, TextStyle)>, k: int)
    requires
        0 <= k <= sv.len(),
    ensures
        line_columns(sv.take(k)) <= line_columns(sv),
    decreases sv.len() - k,
{
    if k < sv.len() {
        lemma_line_columns_grows(sv, k + 1);
        assert(sv.take(k + 1).drop_last() =~= sv.take(k));
    } else {
        assert(sv.take(k) =~= sv);
    }
}

/// A prefix span by its view.
pub open spec fn prefix_view(o: Option<(String, TextStyle)>) -> Option<(Seq<char>, TextStyle)> {
    match o {
        Some(p) => Some((p.0@, p.1)),
        None => None,
    }
}

/// How the wrapping stands in the code: the finished lines, the line being
/// filled, and its columns: `over` when they are past the width, else
/// their number in `used`.
pub open spec fn tracks(
    st: WrapState,
    done: Seq<Vec<StyledSpan>>,
    cur: Seq<StyledSpan>,
    over: bool,
    used: usize,
    width: usize,
) -> bool {
    &&& span_lines(done) == st.done
    &&& spans_view(cur) == st.cur
    &&& st.used >= 0
    &&& over == (st.used > width)
    &&& !over ==> used == st.used
}

/// A line of styled spans wrapped at `width` columns (see `spec_wrap_line`).
pub fn wrap_line_by_width(spans: &Vec<StyledSpan>, width: usize) -> (r: Vec<Vec<StyledSpan>>)
    ensures
        span_lines(r@) == spec_wrap_line(spans_view(spans@), width as nat),
{
    let ghost sv = spans_view(spans@);
    if width == 0 || fits(spans, width) {
        let mut r: Vec<Vec<StyledSpan>> = Vec::new();
        r.push(copy_spans(spans));
        proof {
            assert(span_lines(r@) =~= seq![sv]);
        }
        return r;
    }
    let prefix: Option<(String, TextStyle)> = if spans.len() > 0 && spans[0].text.as_str().unicode_len() > 0
        && spans[0].text.as_str().get_char(0) == '>' {
        Some((spans[0].text.clone(), spans[0].style))
    } else {
        None
    };
    let ghost pv = prefix_view(prefix);
    proof {
        assert(pv == quote_prefix(sv));
    }
    let mut result: Vec<Vec<StyledSpan>> = Vec::new();
    let mut current: Vec<StyledSpan> = Vec::new();
    let mut over = false;
    let mut used: usize = 0;
    let mut i: usize = 0;
    proof {
        assert(span_lines(result@) =~= Seq::<Seq<(Seq<char>, TextStyle)>>::empty());
        assert(spans_view(current@) =~= Seq::<(Seq<char>, TextStyle)>::empty());
    }
    while i < spans.len()
        invariant
            sv == spans_view(spans@),
            pv == quote_prefix(sv),
            pv == prefix_view(prefix),
            i <= spans.len(),
            tracks(wrap_spans(sv, i as nat, width as nat, pv), result@, current@, over, used, width),
            wrap_spans(sv, i as nat, width as nat, pv).buf == Seq::<char>::empty(),
        decreases spans.len() - i,
    {
        let ghost st0 = wrap_spans(sv, i as nat, width as nat, pv);
        let style = spans[i].style;
        let chars = chars_of(spans[i].text.as_str());
        let ghost t = chars@;
        proof {
            assert(sv[i as int] == (t, style));
        }
        let mut buf = String::new();
        let mut k: usize = 0;
        while k < chars.len()
            invariant
                t == chars@,
                pv == prefix_view(prefix),
                k <= chars.len(),
                tracks(
                    wrap_text(WrapState { buf: seq![], ..st0 }, t.take(k as int), style, width as nat, pv),
                    result@,
                    current@,
                    over,
                    used,
                    width,
                ),
                buf@ == wrap_text(WrapState { buf: seq![], ..st0 }, t.take(k as int), style, width as nat, pv).buf,
            decreases chars.len() - k,
        {
            let ghost before = wrap_text(WrapState { buf: seq![], ..st0 }, t.take(k as int), style, width as nat, pv);
            proof {
                assert(t.take(k + 1).drop_last() =~= t.take(k as int));
                assert(t.take(k + 1).last() == t[k as int]);
            }
            let c = chars[k];
            let w = wrap_width(c);
            let past = over || w > width - used;
            if past && buf.as_str().unicode_len() > 0 {
                let mut piece = String::new();
                std::mem::swap(&mut piece, &mut buf);
                let ghost cur0 = spans_view(current@);
                current.push(StyledSpan { text: piece, style: style });
                let mut line: Vec<StyledSpan> = Vec::new();
                std::mem::swap(&mut line, &mut current);
                let ghost done0 = span_lines(result@);
                result.push(line);
                proof {
                    assert(spans_view(line@) =~= cur0.push((piece@, style)));
                    assert(span_lines(result@) =~= done0.push(spans_view(line@)));
                    assert(spans_view(current@) =~= Seq::<(Seq<char>, TextStyle)>::empty());
                }
                match &prefix {
                    Some(p) => {
                        let pw = crate::width::display_width(p.0.as_str());
                        let ptext = p.0.clone();
                        current.push(StyledSpan { text: ptext, style: p.1 });
                        proof {
                            assert(spans_view(current@) =~= seq![(p.0@, p.1)]);
                        }
                        over = pw > width;
                        used = if pw > width { 0 } else { pw };
                    },
                    None => {
                        over = false;
                        used = 0;
                    },
                }
            }
            push_char(&mut buf, c);
            if !over {
                if w > width - used {
                    over = true;
                } else {
                    used = used + w;
                }
            }
            proof {
                let after = wrap_text(WrapState { buf: seq![], ..st0 }, t.take(k + 1), style, width as nat, pv);
                assert(after == wrap_char(before, c, style, width as nat, pv));
            }
            k += 1;
        }
        proof {
            assert(t.take(chars.len() as int) =~= t);
        }
        let ghost st1 = wrap_text(WrapState { buf: seq![], ..st0 }, t, style, width as nat, pv);
        if buf.as_str().unicode_len() > 0 {
            let ghost cur0 = spans_view(current@);
            current.push(StyledSpan { text: buf, style: style });
            proof {
                assert(spans_view(current@) =~= cur0.push((st1.buf, style)));
            }
        }
        proof {
            assert(wrap_spans(sv, (i + 1) as nat, width as nat, pv) == wrap_span(st0, sv[i as int], width as nat, pv));
        }
        i += 1;
    }
    let ghost st = wrap_spans(sv, spans.len() as nat, width as nat, pv);
    if current.len() > 0 {
        let ghost done0 = span_lines(result@);
        result.push(current);
        proof {
            assert(span_lines(result@) =~= done0.push(st.cur));
        }
    }
    if result.len() == 0 {
        let mut r: Vec<Vec<StyledSpan>> = Vec::new();
        r.push(copy_spans(spans));
        proof {
            assert(span_lines(r@) =~= seq![sv]);
        }
        return r;
    }
    result
}

/// The rows shown in a panel `height` rows high (at least one) scrolled
/// up by `scroll` rows from the bottom, out of `total` rows: the first
/// row shown and how many rows are shown. Scrolling stops at the top.
pub fn scroll_window(total: usize, height: usize, scroll: usize) -> (r: (usize, usize))
    ensures
        ({
            let visible = if height > 0 { height as int } else { 1 };
            let max_scroll = if total > visible { total - visible } else { 0 };
            let sc = if scroll < max_scroll { scroll as int } else { max_scroll };
            let start = if total > visible + sc { total - (visible + sc) } else { 0 };
            &&& r.0 == start
            &&& r.1 == (if total - start < visible { total - start } else { visible })
        }),
{
    let visible = if height > 0 { height } else { 1 };
    let max_scroll = if total > visible { total - visible } else { 0 };
    let sc = if scroll < max_scroll { scroll } else { max_scroll };
    let start = if total - sc > visible { total - sc - visible } else { 0 };
    let shown = if total - start < visible { total - start } else { visible };
    (start, shown)
}

} // verus!
