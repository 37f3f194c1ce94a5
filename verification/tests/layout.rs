use openrust_core::dialog::{Dialog, DialogKind};
use openrust_core::layout::{dialog_rect, modal_rect, toast_rect, Area};

fn screen(width: u16, height: u16) -> Area {
    Area { x: 0, y: 0, width, height }
}

#[test]
fn modal_is_centered_near_the_top() {
    let r = modal_rect(62, 16, 4, screen(100, 40));
    assert_eq!(r, Area { x: 19, y: 4, width: 62, height: 16 });
    let r = modal_rect(50, 30, 4, Area { x: 10, y: 5, width: 80, height: 20 });
    assert_eq!(r, Area { x: 30, y: 7, width: 40, height: 18 });
}

#[test]
fn modal_keeps_its_least_size() {
    let r = modal_rect(62, 16, 4, screen(10, 5));
    assert_eq!(r, Area { x: 0, y: 0, width: 24, height: 6 });
}

#[test]
fn toast_sits_at_the_bottom() {
    assert_eq!(toast_rect(screen(100, 40)), Area { x: 20, y: 36, width: 60, height: 3 });
    assert_eq!(toast_rect(screen(10, 2)), Area { x: 0, y: 0, width: 20, height: 3 });
}

#[test]
fn dialogs_are_sized_by_kind() {
    let session = Dialog::new(DialogKind::Session, "s", "", Vec::new(), 0);
    assert_eq!(dialog_rect(&session, screen(100, 40)), Area { x: 21, y: 4, width: 58, height: 24 });
    let help = Dialog::new(DialogKind::SlashHelp, "h", "", Vec::new(), 0);
    assert_eq!(dialog_rect(&help, screen(100, 40)), Area { x: 22, y: 3, width: 56, height: 12 });
}
