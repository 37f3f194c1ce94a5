//! Messages as the session view shows them.

use vstd::prelude::*;

verus! {

/// A message of the session view: who said it, what was said, whether it
/// starts folded, and an optional note shown after the role.
pub struct DisplayMessage {
    pub role: String,
    pub content: String,
    pub collapsed: bool,
    pub meta: Option<String>,
}

impl DisplayMessage {
    pub fn role(&self) -> (r: &str)
        ensures
            r@ == self.role@,
    {
        self.role.as_str()
    }

    pub fn content(&self) -> (r: &str)
        ensures
            r@ == self.content@,
    {
        self.content.as_str()
    }

    /// An unfolded message without a note.
    pub fn new(role: &str, content: &str) -> (r: Self)
        ensures
            r.role@ == role@,
            r.content@ == content@,
            !r.collapsed,
            r.meta is None,
    {
        DisplayMessage {
            role: String::from_str(role),
            content: String::from_str(content),
            collapsed: false,
            meta: None,
        }
    }

    /// A folded message without a note.
    pub fn new_collapsed(role: &str, content: &str) -> (r: Self)
        ensures
            r.role@ == role@,
            r.content@ == content@,
            r.collapsed,
            r.meta is None,
    {
        DisplayMessage {
            role: String::from_str(role),
            content: String::from_str(content),
            collapsed: true,
            meta: None,
        }
    }

    /// An unfolded message with a note.
    pub fn new_with_meta(role: &str, content: &str, meta: String) -> (r: Self)
        ensures
            r.role@ == role@,
            r.content@ == content@,
            !r.collapsed,
            r.meta == Some(meta),
    {
        DisplayMessage {
            role: String::from_str(role),
            content: String::from_str(content),
            collapsed: false,
            meta: Some(meta),
        }
    }
}

} // verus!
