use openrust_core::dialog::DialogKind;
use openrust_core::keys::{route_key, Key, KeyPress, KeyRoute, RouteState};

fn idle() -> RouteState {
    RouteState {
        permission_pending: false,
        question_pending: false,
        text_input_pending: false,
        ai_running: false,
        dialog: None,
        dialog_has_selection: false,
        session_mode: true,
    }
}

fn press(key: Key) -> KeyPress {
    KeyPress { key, control: false, shift: false, is_press: true }
}

#[test]
fn blocking_requests_take_every_press() {
    let s = RouteState { permission_pending: true, question_pending: true, ..idle() };
    assert_eq!(route_key(s, press(Key::Enter)), KeyRoute::Permission);
    let s = RouteState { question_pending: true, ..idle() };
    assert_eq!(route_key(s, press(Key::Char('x'))), KeyRoute::Question);
    let s = RouteState { text_input_pending: true, ..idle() };
    assert_eq!(route_key(s, press(Key::Esc)), KeyRoute::TextInput);
    let release = KeyPress { is_press: false, ..press(Key::Enter) };
    assert_eq!(route_key(s, release), KeyRoute::Ignore);
}

#[test]
fn control_c_copies_or_exits() {
    let k = KeyPress { control: true, shift: true, ..press(Key::Char('c')) };
    assert_eq!(route_key(idle(), k), KeyRoute::CopyOrExit { input_first: true });
}

#[test]
fn esc_stops_closes_or_is_dropped() {
    assert_eq!(route_key(RouteState { ai_running: true, ..idle() }, press(Key::Esc)), KeyRoute::AbortTurn);
    let with_dialog = RouteState { dialog: Some(DialogKind::Model), ..idle() };
    assert_eq!(route_key(with_dialog, press(Key::Esc)), KeyRoute::CloseDialog);
    assert_eq!(route_key(idle(), press(Key::Esc)), KeyRoute::Swallow);
}

#[test]
fn arrows_move_dialogs_or_scroll() {
    let with_dialog = RouteState { dialog: Some(DialogKind::Model), ..idle() };
    assert_eq!(route_key(with_dialog, press(Key::Up)), KeyRoute::DialogUp);
    assert_eq!(route_key(with_dialog, press(Key::Down)), KeyRoute::DialogDown);
    assert_eq!(route_key(idle(), press(Key::Up)), KeyRoute::ScrollUp(3));
    assert_eq!(route_key(idle(), press(Key::PageDown)), KeyRoute::ScrollDown(8));
    let home = RouteState { session_mode: false, ..idle() };
    assert_eq!(route_key(home, press(Key::Down)), KeyRoute::Propagate);
}

#[test]
fn tab_completes_or_cycles_agents() {
    let slash = RouteState { dialog: Some(DialogKind::SlashHelp), dialog_has_selection: true, ..idle() };
    assert_eq!(route_key(slash, press(Key::Tab)), KeyRoute::Complete);
    assert_eq!(route_key(idle(), press(Key::Tab)), KeyRoute::CycleAgent);
}

#[test]
fn typing_edits_the_input() {
    assert_eq!(route_key(idle(), press(Key::Char('a'))), KeyRoute::EditInput);
    assert_eq!(route_key(idle(), press(Key::Backspace)), KeyRoute::EditInput);
    assert_eq!(route_key(idle(), press(Key::Home)), KeyRoute::MoveCursor);
    let ctrl_e = KeyPress { control: true, ..press(Key::Char('e')) };
    assert_eq!(route_key(idle(), ctrl_e), KeyRoute::ToggleToolCollapse);
    let ctrl_x = KeyPress { control: true, ..press(Key::Char('x')) };
    assert_eq!(route_key(idle(), ctrl_x), KeyRoute::Propagate);
    assert_eq!(route_key(idle(), press(Key::Enter)), KeyRoute::Enter);
}
