//! Where the popups of the view stand on the screen: dialogs anchored near
//! the top center, notices near the bottom.

use vstd::prelude::*;
use crate::dialog::{Dialog, DialogKind};

verus! {

/// A rectangle of terminal cells: its top-left corner and its size.
#[derive(Clone, Copy, Debug, PartialEq, Eq, Structural)]
pub struct Area {
    pub x: u16,
    pub y: u16,
    pub width: u16,
    pub height: u16,
}

/// `a - b`, or zero when `b` is larger.
pub open spec fn sat_sub(a: int, b: int) -> int {
    if a >= b { a - b } else { 0 }
}

/// `a`, capped at the largest `u16`.
pub open spec fn cap16(a: int) -> int {
    if a > u16::MAX { u16::MAX as int } else { a }
}

pub open spec fn max_of(a: int, b: int) -> int {
    if a >= b { a } else { b }
}

pub open spec fn min_of(a: int, b: int) -> int {
    if a <= b { a } else { b }
}

/// Width of a modal: `percent_x` percent of the area's width, at least 24.
pub open spec fn modal_width(percent_x: u16, area: Area) -> int {
    max_of(cap16(area.width * percent_x) / 100, 24)
}

/// Height of a modal: `height`, at most the area's height less two, at
/// least 6.
pub open spec fn modal_height(height: u16, area: Area) -> int {
    max_of(min_of(height as int, sat_sub(area.height as int, 2)), 6)
}

/// The column of a modal, centered in the area.
pub open spec fn modal_x(percent_x: u16, area: Area) -> int {
    area.x + sat_sub(area.width as int, modal_width(percent_x, area)) / 2
}

/// The row of a modal: `top_offset` rows below the area's top, raised so
/// that its bottom stays inside the area.
pub open spec fn modal_y(height: u16, top_offset: u16, area: Area) -> int {
    min_of(
        cap16(area.y + top_offset),
        area.y + sat_sub(area.height as int, modal_height(height, area)),
    )
}

/// Whether the modal's position can be counted in `u16` cells.
pub open spec fn modal_fits(percent_x: u16, height: u16, area: Area) -> bool {
    &&& modal_x(percent_x, area) <= u16::MAX
    &&& area.y + sat_sub(area.height as int, modal_height(height, area)) <= u16::MAX
}

fn capped_percent(w: u16, percent: u16) -> (r: u16)
    ensures
        r == cap16(w * percent) / 100,
{
    assert((w as int) * (percent as int) <= 65535 * 65535) by (nonlinear_arith)
        requires w <= 65535, percent <= 65535, w >= 0, percent >= 0;
    let prod: u32 = (w as u32) * (percent as u32);
    let capped: u32 = if prod > 65535 { 65535 } else { prod };
    (capped / 100) as u16
}

/// A modal box `percent_x` percent as wide as `area` (at least 24 cells),
/// `height` rows high (at most the area's height less two, at least 6),
/// centered across and `top_offset` rows from the top, raised so that it
/// ends inside the area. When the area holds such a box, the box lies
/// inside it.
pub fn modal_rect(percent_x: u16, height: u16, top_offset: u16, area: Area) -> (r: Area)
    requires
        modal_fits(percent_x, height, area),
    ensures
        r.width == modal_width(percent_x, area),
        r.height == modal_height(height, area),
        r.x == modal_x(percent_x, area),
        r.y == modal_y(height, top_offset, area),
        r.width >= 24 && r.height >= 6,
        (percent_x <= 100 && area.width >= 24 && area.height >= 8) ==> {
            &&& area.x <= r.x
            &&& r.x + r.width <= area.x + area.width
            &&& area.y <= r.y
            &&& r.y + r.height <= area.y + area.height
        },
{
    let w0 = capped_percent(area.width, percent_x);
    let width: u16 = if w0 < 24 { 24 } else { w0 };
    let room: u16 = area.height.saturating_sub(2);
    let h0: u16 = if height < room { height } else { room };
    let h: u16 = if h0 < 6 { 6 } else { h0 };
    let x: u16 = area.x + area.width.saturating_sub(width) / 2;
    let lowest: u16 = area.y + area.height.saturating_sub(h);
    let wanted: u16 = area.y.saturating_add(top_offset);
    let y: u16 = if wanted < lowest { wanted } else { lowest };
    proof {
        if percent_x <= 100 && area.width >= 24 {
            let p = percent_x as int;
            let aw = area.width as int;
            assert(aw * p <= aw * 100) by (nonlinear_arith)
                requires p <= 100, aw >= 0;
            assert(cap16(aw * p) / 100 <= aw) by (nonlinear_arith)
                requires cap16(aw * p) <= aw * 100, cap16(aw * p) >= 0;
        }
    }
    Area { x, y, width, height: h }
}

/// Width of a notice: 60 percent of the area's width, at least 20.
pub open spec fn toast_width(area: Area) -> int {
    max_of(cap16(area.width * 60) / 100, 20)
}

/// Whether the notice's position can be counted in `u16` cells.
pub open spec fn toast_fits(area: Area) -> bool {
    &&& area.x + sat_sub(area.width as int, toast_width(area)) / 2 <= u16::MAX
    &&& area.y + sat_sub(area.height as int, 4) <= u16::MAX
}

/// A notice three rows high and 60 percent as wide as `area` (at least 20
/// cells), centered across, its top four rows above the area's bottom.
pub fn toast_rect(area: Area) -> (r: Area)
    requires
        toast_fits(area),
    ensures
        r.width == toast_width(area),
        r.height == 3,
        r.x == area.x + sat_sub(area.width as int, toast_width(area)) / 2,
        r.y == area.y + sat_sub(area.height as int, 4),
{
    let w0 = capped_percent(area.width, 60);
    let width: u16 = if w0 < 20 { 20 } else { w0 };
    let x: u16 = area.x + area.width.saturating_sub(width) / 2;
    let y: u16 = area.y + area.height.saturating_sub(4);
    Area { x, y, width, height: 3 }
}

/// The width percentage, height and top offset of each kind of dialog.
pub open spec fn dialog_frame(kind: DialogKind) -> (u16, u16, u16) {
    match kind {
        DialogKind::Provider | DialogKind::ProviderModel | DialogKind::ConnectProtocol
        | DialogKind::Model => (62, 16, 4),
        DialogKind::Agent | DialogKind::Task => (60, 15, 4),
        DialogKind::SlashHelp => (56, 12, 3),
        DialogKind::Thinking | DialogKind::ReasoningEffort | DialogKind::Theme => (52, 12, 4),
        DialogKind::ModelConfigLoop | DialogKind::ReasoningToggle => (60, 14, 4),
        DialogKind::Session | DialogKind::SessionDelete => (58, 24, 4),
    }
}

/// The box of a dialog: a modal sized by its kind (see `dialog_frame`).
pub fn dialog_rect(dialog: &Dialog, area: Area) -> (r: Area)
    requires
        modal_fits(dialog_frame(dialog@.kind).0, dialog_frame(dialog@.kind).1, area),
    ensures
        ({
            let (p, h, t) = dialog_frame(dialog@.kind);
            &&& r.width == modal_width(p, area)
            &&& r.height == modal_height(h, area)
            &&& r.x == modal_x(p, area)
            &&& r.y == modal_y(h, t, area)
        }),
{
    let (p, h, t): (u16, u16, u16) = match dialog.kind() {
        DialogKind::Provider | DialogKind::ProviderModel | DialogKind::ConnectProtocol
        | DialogKind::Model => (62, 16, 4),
        DialogKind::Agent | DialogKind::Task => (60, 15, 4),
        DialogKind::SlashHelp => (56, 12, 3),
        DialogKind::Thinking | DialogKind::ReasoningEffort | DialogKind::Theme => (52, 12, 4),
        DialogKind::ModelConfigLoop | DialogKind::ReasoningToggle => (60, 14, 4),
        DialogKind::Session | DialogKind::SessionDelete => (58, 24, 4),
    };
    modal_rect(p, h, t, area)
}

} // verus!
