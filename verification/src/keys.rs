//! Where a key press goes: the layers of the view, from the blocking
//! requests on top down to the input line, each taking the keys it
//! handles.

use vstd::prelude::*;
use crate::dialog::DialogKind;

verus! {

/// A key as the router reads it.
#[derive(Clone, Copy, Debug, PartialEq, Eq, Structural)]
pub enum Key {
    Char(char),
    Esc,
    Enter,
    Tab,
    Up,
    Down,
    Left,
    Right,
    Home,
    End,
    PageUp,
    PageDown,
    Backspace,
    Delete,
    Other,
}

/// A key event: the key, the Control and Shift modifiers, and whether it
/// is a press (rather than a repeat or a release).
#[derive(Clone, Copy, Debug, PartialEq, Eq, Structural)]
pub struct KeyPress {
    pub key: Key,
    pub control: bool,
    pub shift: bool,
    pub is_press: bool,
}

/// What the view holds that decides where a key goes.
#[derive(Clone, Copy, Debug, PartialEq, Eq, Structural)]
pub struct RouteState {
    pub permission_pending: bool,
    pub question_pending: bool,
    pub text_input_pending: bool,
    pub ai_running: bool,
    /// The open dialog's kind, if one is open.
    pub dialog: Option<DialogKind>,
    /// Whether the open dialog has an option selected.
    pub dialog_has_selection: bool,
    /// Whether a session is shown (rather than the home screen).
    pub session_mode: bool,
}

/// Where a key goes.
#[derive(Clone, Copy, Debug, PartialEq, Eq, Structural)]
pub enum KeyRoute {
    /// Not a press: nothing takes it.
    Ignore,
    /// The pending permission request.
    Permission,
    /// The pending question.
    Question,
    /// The pending text input.
    TextInput,
    /// Control-C: copy the selected session text or the input (the input
    /// first when Shift is held); leave the program when nothing was
    /// copied.
    CopyOrExit { input_first: bool },
    /// Esc while the model answers: stop the turn.
    AbortTurn,
    /// Esc over a dialog: close it.
    CloseDialog,
    /// Taken and dropped.
    Swallow,
    DialogUp,
    DialogDown,
    /// Submit the dialog's selection or the input line.
    Enter,
    /// Complete the input from the slash-command dialog.
    Complete,
    /// Switch to the next agent.
    CycleAgent,
    /// Scroll the session up (back) by this many rows.
    ScrollUp(usize),
    /// Scroll the session down by this many rows.
    ScrollDown(usize),
    /// Edit the input line (typing or deleting).
    EditInput,
    /// Move the input line's cursor.
    MoveCursor,
    /// Fold or unfold the last tool message.
    ToggleToolCollapse,
    /// Nothing takes it.
    Propagate,
}

/// The routing, layer by layer: the blocking requests take every press;
/// then Control-C; then Esc; then a dialog's arrows; then Enter and Tab;
/// then scrolling and the input line.
pub open spec fn spec_route(s: RouteState, k: KeyPress) -> KeyRoute {
    if !k.is_press {
        KeyRoute::Ignore
    } else if s.permission_pending {
        KeyRoute::Permission
    } else if s.question_pending {
        KeyRoute::Question
    } else if s.text_input_pending {
        KeyRoute::TextInput
    } else if k.key == Key::Char('c') && k.control {
        KeyRoute::CopyOrExit { input_first: k.shift }
    } else if k.key == Key::Esc {
        if s.ai_running {
            KeyRoute::AbortTurn
        } else if s.dialog is Some {
            KeyRoute::CloseDialog
        } else {
            KeyRoute::Swallow
        }
    } else if s.dialog is Some && k.key == Key::Up {
        KeyRoute::DialogUp
    } else if s.dialog is Some && k.key == Key::Down {
        KeyRoute::DialogDown
    } else if k.key == Key::Enter {
        KeyRoute::Enter
    } else if k.key == Key::Tab {
        if s.dialog == Some(DialogKind::SlashHelp) && s.dialog_has_selection {
            KeyRoute::Complete
        } else {
            KeyRoute::CycleAgent
        }
    } else {
        match k.key {
            Key::Up => if s.session_mode { KeyRoute::ScrollUp(3) } else { KeyRoute::Propagate },
            Key::Down => if s.session_mode { KeyRoute::ScrollDown(3) } else { KeyRoute::Propagate },
            Key::PageUp => KeyRoute::ScrollUp(8),
            Key::PageDown => KeyRoute::ScrollDown(8),
            Key::Backspace => KeyRoute::EditInput,
            Key::Delete => KeyRoute::EditInput,
            Key::Left => KeyRoute::MoveCursor,
            Key::Right => KeyRoute::MoveCursor,
            Key::Home => KeyRoute::MoveCursor,
            Key::End => KeyRoute::MoveCursor,
            Key::Char(c) => if k.control {
                if c == 'e' {
                    KeyRoute::ToggleToolCollapse
                } else {
                    KeyRoute::Propagate
                }
            } else {
                KeyRoute::EditInput
            },
            _ => KeyRoute::Propagate,
        }
    }
}

/// Where a key goes (see `spec_route`).
pub fn route_key(s: RouteState, k: KeyPress) -> (r: KeyRoute)
    ensures
        r == spec_route(s, k),
{
    if !k.is_press {
        return KeyRoute::Ignore;
    }
    if s.permission_pending {
        return KeyRoute::Permission;
    }
    if s.question_pending {
        return KeyRoute::Question;
    }
    if s.text_input_pending {
        return KeyRoute::TextInput;
    }
    match k.key {
        Key::Char(c) => {
            if c == 'c' && k.control {
                return KeyRoute::CopyOrExit { input_first: k.shift };
            }
        },
        _ => {},
    }
    let has_dialog = match s.dialog {
        Some(_) => true,
        None => false,
    };
    match k.key {
        Key::Esc => {
            if s.ai_running {
                KeyRoute::AbortTurn
            } else if has_dialog {
                KeyRoute::CloseDialog
            } else {
                KeyRoute::Swallow
            }
        },
        Key::Up => {
            if has_dialog {
                KeyRoute::DialogUp
            } else if s.session_mode {
                KeyRoute::ScrollUp(3)
            } else {
                KeyRoute::Propagate
            }
        },
        Key::Down => {
            if has_dialog {
                KeyRoute::DialogDown
            } else if s.session_mode {
                KeyRoute::ScrollDown(3)
            } else {
                KeyRoute::Propagate
            }
        },
        Key::Enter => KeyRoute::Enter,
        Key::Tab => {
            let slash = match s.dialog {
                Some(DialogKind::SlashHelp) => true,
                _ => false,
            };
            if slash && s.dialog_has_selection {
                KeyRoute::Complete
            } else {
                KeyRoute::CycleAgent
            }
        },
        Key::PageUp => KeyRoute::ScrollUp(8),
        Key::PageDown => KeyRoute::ScrollDown(8),
        Key::Backspace | Key::Delete => KeyRoute::EditInput,
        Key::Left | Key::Right | Key::Home | Key::End => KeyRoute::MoveCursor,
        Key::Char(c) => {
            if k.control {
                if c == 'e' {
                    KeyRoute::ToggleToolCollapse
                } else {
                    KeyRoute::Propagate
                }
            } else {
                KeyRoute::EditInput
            }
        },
        Key::Other => KeyRoute::Propagate,
    }
}

/// The blocking requests sit on top: while one is pending, every key press
/// goes to it, a permission request before a question before a text input.
pub proof fn lemma_blocking_requests_take_every_press(s: RouteState, k: KeyPress)
    requires
        k.is_press,
        s.permission_pending || s.question_pending || s.text_input_pending,
    ensures
        spec_route(s, k) == (if s.permission_pending {
            KeyRoute::Permission
        } else if s.question_pending {
            KeyRoute::Question
        } else {
            KeyRoute::TextInput
        }),
{
}

/// Control-C is never typed into the input: with no request pending it
/// copies or leaves the program, whatever else the view shows.
pub proof fn lemma_control_c_copies_or_exits(s: RouteState, k: KeyPress)
    requires
        k.is_press,
        !s.permission_pending,
        !s.question_pending,
        !s.text_input_pending,
        k.key == Key::Char('c'),
        k.control,
    ensures
        spec_route(s, k) == (KeyRoute::CopyOrExit { input_first: k.shift }),
{
}

} // verus!
