//! Commands typed at the prompt: exit words, slash commands and the
//! thinking-visibility switch.

use vstd::prelude::*;
use crate::text::{split_whitespace_str, str_eq, trim, trim_str, views, words};

verus! {

/// Whether reasoning text is shown.
#[derive(Clone, Copy, Debug, PartialEq, Eq, Structural)]
pub enum ThinkingMode {
    Show,
    Hide,
}

impl ThinkingMode {
    pub open spec fn spec_label(self) -> Seq<char> {
        match self {
            ThinkingMode::Show => "show"@,
            ThinkingMode::Hide => "hide"@,
        }
    }

    pub fn label(self) -> (r: &'static str)
        ensures
            r@ == self.spec_label(),
    {
        match self {
            ThinkingMode::Show => "show",
            ThinkingMode::Hide => "hide",
        }
    }
}

/// A change asked of the thinking mode.
#[derive(Clone, Copy, Debug, PartialEq, Eq, Structural)]
pub enum ThinkingModeCommand {
    Show,
    Hide,
    Toggle,
}

impl ThinkingModeCommand {
    pub open spec fn spec_apply(self, current: ThinkingMode) -> ThinkingMode {
        match self {
            ThinkingModeCommand::Show => ThinkingMode::Show,
            ThinkingModeCommand::Hide => ThinkingMode::Hide,
            ThinkingModeCommand::Toggle => match current {
                ThinkingMode::Show => ThinkingMode::Hide,
                ThinkingMode::Hide => ThinkingMode::Show,
            },
        }
    }

    /// The mode after this command: `Show` and `Hide` set it, `Toggle` flips it.
    pub fn apply(self, current: ThinkingMode) -> (r: ThinkingMode)
        ensures
            r == self.spec_apply(current),
    {
        match self {
            ThinkingModeCommand::Show => ThinkingMode::Show,
            ThinkingModeCommand::Hide => ThinkingMode::Hide,
            ThinkingModeCommand::Toggle => match current {
                ThinkingMode::Show => ThinkingMode::Hide,
                ThinkingMode::Hide => ThinkingMode::Show,
            },
        }
    }
}

/// Toggling twice gives back the mode one started from; `Show` and `Hide`
/// set the mode whatever it was, so applying either twice changes nothing
/// more than applying it once.
pub proof fn lemma_thinking_commands(m: ThinkingMode, c: ThinkingModeCommand)
    ensures
        ThinkingModeCommand::Toggle.spec_apply(ThinkingModeCommand::Toggle.spec_apply(m)) == m,
        ThinkingModeCommand::Toggle.spec_apply(m) != m,
        c != ThinkingModeCommand::Toggle ==> c.spec_apply(c.spec_apply(m)) == c.spec_apply(m),
        ThinkingModeCommand::Show.spec_apply(m) == ThinkingMode::Show,
        ThinkingModeCommand::Hide.spec_apply(m) == ThinkingMode::Hide,
        ThinkingMode::Show.spec_label() != ThinkingMode::Hide.spec_label(),
{
    reveal_strlit("show");
    reveal_strlit("hide");
    assert("show"@[0] != "hide"@[0]);
}

/// A slash command with its arguments.
#[derive(Debug)]
pub enum SlashCommand {
    Thinking(ThinkingModeCommand),
    Session(Vec<String>),
    Agent(Vec<String>),
    Compact(Vec<String>),
    Task(Vec<String>),
    Connect(Vec<String>),
    Models(Vec<String>),
    Files,
    Diff,
    Reload,
    Dream,
}

/// A slash command by its view: arguments as character sequences.
pub enum SlashSpec {
    Thinking(ThinkingModeCommand),
    Session(Seq<Seq<char>>),
    Agent(Seq<Seq<char>>),
    Compact(Seq<Seq<char>>),
    Task(Seq<Seq<char>>),
    Connect(Seq<Seq<char>>),
    Models(Seq<Seq<char>>),
    Files,
    Diff,
    Reload,
    Dream,
}

impl View for SlashCommand {
    type V = SlashSpec;

    open spec fn view(&self) -> SlashSpec {
        match self {
            SlashCommand::Thinking(c) => SlashSpec::Thinking(*c),
            SlashCommand::Session(a) => SlashSpec::Session(views(a@)),
            SlashCommand::Agent(a) => SlashSpec::Agent(views(a@)),
            SlashCommand::Compact(a) => SlashSpec::Compact(views(a@)),
            SlashCommand::Task(a) => SlashSpec::Task(views(a@)),
            SlashCommand::Connect(a) => SlashSpec::Connect(views(a@)),
            SlashCommand::Models(a) => SlashSpec::Models(views(a@)),
            SlashCommand::Files => SlashSpec::Files,
            SlashCommand::Diff => SlashSpec::Diff,
            SlashCommand::Reload => SlashSpec::Reload,
            SlashCommand::Dream => SlashSpec::Dream,
        }
    }
}

/// The thinking change named by the word after `/thinking`, if any.
pub open spec fn spec_thinking_arg(rest: Seq<Seq<char>>) -> ThinkingModeCommand {
    if rest.len() > 0 && (rest[0] == "show"@ || rest[0] == "on"@) {
        ThinkingModeCommand::Show
    } else if rest.len() > 0 && (rest[0] == "hide"@ || rest[0] == "off"@) {
        ThinkingModeCommand::Hide
    } else {
        ThinkingModeCommand::Toggle
    }
}

/// The slash command that the first word of the input names, with the
/// remaining words as its arguments.
pub open spec fn spec_parse_slash(input: Seq<char>) -> Option<SlashSpec> {
    let w = words(input);
    if w.len() == 0 {
        None
    } else {
        let h = w[0];
        let rest = w.drop_first();
        if h == "/thinking"@ || h == "/think"@ {
            Some(SlashSpec::Thinking(spec_thinking_arg(rest)))
        } else if h == "/session"@ {
            Some(SlashSpec::Session(rest))
        } else if h == "/agent"@ {
            Some(SlashSpec::Agent(rest))
        } else if h == "/compact"@ || h == "/compaction"@ {
            Some(SlashSpec::Compact(rest))
        } else if h == "/task"@ {
            Some(SlashSpec::Task(rest))
        } else if h == "/connect"@ {
            Some(SlashSpec::Connect(rest))
        } else if h == "/models"@ || h == "/model"@ {
            Some(SlashSpec::Models(rest))
        } else if h == "/files"@ || h == "/tree"@ {
            Some(SlashSpec::Files)
        } else if h == "/diff"@ {
            Some(SlashSpec::Diff)
        } else if h == "/reload"@ {
            Some(SlashSpec::Reload)
        } else if h == "/dream"@ {
            Some(SlashSpec::Dream)
        } else {
            None
        }
    }
}

fn rest_words(w: &Vec<String>) -> (r: Vec<String>)
    requires
        w.len() > 0,
    ensures
        views(r@) == views(w@).drop_first(),
{
    let mut out: Vec<String> = Vec::new();
    let mut i: usize = 1;
    while i < w.len()
        invariant
            1 <= i <= w.len(),
            views(out@) =~= views(w@).subrange(1, i as int),
        decreases w.len() - i,
    {
        let ghost before = views(out@);
        let x = w[i].clone();
        out.push(x);
        proof {
            assert(views(out@) =~= before.push(x@));
        }
        i += 1;
    }
    out
}

/// Parses a slash command (see `spec_parse_slash`).
pub fn parse_slash_command(input: &str) -> (r: Option<SlashCommand>)
    ensures
        match r {
            Some(c) => spec_parse_slash(input@) == Some(c@),
            None => spec_parse_slash(input@) is None,
        },
{
    let w = split_whitespace_str(input);
    if w.len() == 0 {
        return None;
    }
    let h = w[0].as_str();
    let rest = rest_words(&w);
    if str_eq(h, "/thinking") || str_eq(h, "/think") {
        let cmd = if rest.len() > 0 && (str_eq(rest[0].as_str(), "show") || str_eq(
            rest[0].as_str(),
            "on",
        )) {
            ThinkingModeCommand::Show
        } else if rest.len() > 0 && (str_eq(rest[0].as_str(), "hide") || str_eq(
            rest[0].as_str(),
            "off",
        )) {
            ThinkingModeCommand::Hide
        } else {
            ThinkingModeCommand::Toggle
        };
        Some(SlashCommand::Thinking(cmd))
    } else if str_eq(h, "/session") {
        Some(SlashCommand::Session(rest))
    } else if str_eq(h, "/agent") {
        Some(SlashCommand::Agent(rest))
    } else if str_eq(h, "/compact") || str_eq(h, "/compaction") {
        Some(SlashCommand::Compact(rest))
    } else if str_eq(h, "/task") {
        Some(SlashCommand::Task(rest))
    } else if str_eq(h, "/connect") {
        Some(SlashCommand::Connect(rest))
    } else if str_eq(h, "/models") || str_eq(h, "/model") {
        Some(SlashCommand::Models(rest))
    } else if str_eq(h, "/files") || str_eq(h, "/tree") {
        Some(SlashCommand::Files)
    } else if str_eq(h, "/diff") {
        Some(SlashCommand::Diff)
    } else if str_eq(h, "/reload") {
        Some(SlashCommand::Reload)
    } else if str_eq(h, "/dream") {
        Some(SlashCommand::Dream)
    } else {
        None
    }
}

/// Whether the trimmed input is one of the exit words.
pub open spec fn spec_is_exit(input: Seq<char>) -> bool {
    let t = trim(input);
    t == "/exit"@ || t == "exit"@ || t == "/quit"@ || t == "/q"@
}

pub fn is_exit_command(input: &str) -> (r: bool)
    ensures
        r == spec_is_exit(input@),
{
    let t = trim_str(input);
    str_eq(t.as_str(), "/exit") || str_eq(t.as_str(), "exit") || str_eq(t.as_str(), "/quit")
        || str_eq(t.as_str(), "/q")
}

/// Whether a key press ends the program: `c` held with Control, whatever
/// other modifiers are held too. The key is given by the character it
/// types, if any, and whether Control is held.
pub fn should_exit(key_char: Option<char>, control: bool) -> (r: bool)
    ensures
        r == (key_char == Some('c') && control),
{
    match key_char {
        Some(c) => c == 'c' && control,
        None => false,
    }
}


/// A key press while a permission request is open: `a` or `y` allows,
/// `d`, `n` or Esc denies, the arrows and Tab switch the highlighted
/// answer, Enter gives it.
#[derive(Clone, Copy, Debug, PartialEq, Eq, Structural)]
pub enum PermissionKey {
    Allow,
    Deny,
    Switch,
    Enter,
    Other,
}

/// The highlighted answer after a key press, and the decision the key
/// makes, if it makes one.
pub fn permission_key(allow: bool, key: PermissionKey) -> (r: (bool, Option<bool>))
    ensures
        r == (match key {
            PermissionKey::Allow => (allow, Some(true)),
            PermissionKey::Deny => (allow, Some(false)),
            PermissionKey::Switch => (!allow, None),
            PermissionKey::Enter => (allow, Some(allow)),
            PermissionKey::Other => (allow, None::<bool>),
        }),
{
    match key {
        PermissionKey::Allow => (allow, Some(true)),
        PermissionKey::Deny => (allow, Some(false)),
        PermissionKey::Switch => (!allow, None),
        PermissionKey::Enter => (allow, Some(allow)),
        PermissionKey::Other => (allow, None),
    }
}

/// The status line after a permission decision.
pub fn permission_status(allowed: bool) -> (r: &'static str)
    ensures
        r@ == (if allowed { "permission: allowed"@ } else { "permission: denied"@ }),
{
    if allowed {
        "permission: allowed"
    } else {
        "permission: denied"
    }
}

} // verus!
