//! Shared pieces of the tool system: the execution context, path
//! resolution and string truncation.

use std::collections::HashMap;
use vstd::prelude::*;
use vstd::string::StringSliceAdditionalSpecFns;
use crate::text::{starts_with, starts_with_str, str_eq};

verus! {

/// The largest char boundary of `bytes` not above `m`.
pub open spec fn boundary_floor(bytes: Seq<u8>, m: int) -> int
    decreases m,
{
    if m <= 0 || vstd::utf8::is_char_boundary(bytes, m) {
        m
    } else {
        boundary_floor(bytes, m - 1)
    }
}

/// Truncate a string to at most `max_bytes` bytes, backing off to the
/// nearest UTF-8 char boundary to avoid panics on multibyte content.
pub fn truncate_str(s: &str, max_bytes: usize) -> (r: &str)
    requires
        s.spec_bytes().len() <= usize::MAX,
    ensures
        s.spec_bytes().len() <= max_bytes ==> r@ == s@,
        s.spec_bytes().len() > max_bytes ==> r.spec_bytes() == s.spec_bytes().subrange(
            0,
            boundary_floor(s.spec_bytes(), max_bytes as int),
        ),
{
    if s.len() <= max_bytes {
        return s;
    }
    proof {
        vstd::utf8::encode_utf8_valid_utf8(s@);
    }
    let mut end = max_bytes;
    while end > 0 && !s.is_char_boundary(end)
        invariant
            end <= max_bytes,
            vstd::utf8::valid_utf8(s.spec_bytes()),
            boundary_floor(s.spec_bytes(), max_bytes as int) == boundary_floor(
                s.spec_bytes(),
                end as int,
            ),
        decreases end,
    {
        end -= 1;
    }
    s.split_at(end).0
}

/// What a tool runs with: the working directory, the project root used
/// for permission scoping, and session settings.
pub struct ToolContext {
    pub cwd: String,
    pub interactive: bool,
    /// Project root for scope-based permission. Defaults to cwd if None.
    pub project_dir: Option<String>,
    /// Session identity for tools that persist state (todowrite).
    pub session_id: Option<String>,
    pub model: Option<String>,
    pub reasoning_effort: Option<String>,
    /// Persist ephemeral sub-agent / background session histories.
    pub persist_agent_sessions: bool,
    /// Tool presets for resolving agent `tools` specs.
    pub presets: HashMap<String, Vec<String>>,
}

impl ToolContext {
    /// Context with cwd as project root, non-interactive, no session.
    pub fn new(cwd: String) -> (r: Self)
        ensures
            r.cwd == cwd,
            !r.interactive,
            r.project_dir is None,
            r.session_id is None,
            r.model is None,
            r.reasoning_effort is None,
            !r.persist_agent_sessions,
            crate::catalog::preset_map(r.presets) == Map::<Seq<char>, Seq<Seq<char>>>::empty(),
    {
        ToolContext {
            cwd,
            interactive: false,
            project_dir: None,
            session_id: None,
            model: None,
            reasoning_effort: None,
            persist_agent_sessions: false,
            presets: crate::catalog::empty_preset_table(),
        }
    }

    /// The effective project root (project_dir or cwd).
    pub fn project_root(&self) -> (r: &String)
        ensures
            r@ == match self.project_dir {
                Some(d) => d@,
                None => self.cwd@,
            },
    {
        match &self.project_dir {
            Some(d) => d,
            None => &self.cwd,
        }
    }
}

/// Whether a path is absolute (starts at the root).
pub open spec fn is_absolute(p: Seq<char>) -> bool {
    starts_with(p, "/"@)
}

/// `base` joined with `p` (`Path::join`): `p` itself when absolute,
/// otherwise `p` after `base` with one separator between them.
pub open spec fn join_path(base: Seq<char>, p: Seq<char>) -> Seq<char> {
    if is_absolute(p) || base.len() == 0 {
        p
    } else if base.last() == '/' {
        base + p
    } else {
        base + seq!['/'] + p
    }
}

/// `base` joined with `p`.
pub fn join_path_exec(base: &str, p: &str) -> (r: String)
    ensures
        r@ == join_path(base@, p@),
{
    let n = base.unicode_len();
    if starts_with_str(p, "/") || n == 0 {
        return String::from_str(p);
    }
    let mut r = String::from_str(base);
    if base.get_char(n - 1) != '/' {
        crate::text::push_char(&mut r, '/');
    }
    r.append(p);
    r
}

/// A tool's path argument resolved against the working directory.
pub fn resolve_path(ctx: &ToolContext, path: &str) -> (r: String)
    ensures
        r@ == join_path(ctx.cwd@, path@),
{
    join_path_exec(ctx.cwd.as_str(), path)
}


/// The system directories no tool may change.
pub open spec fn protected_roots() -> Seq<Seq<char>> {
    seq!["/bin"@, "/boot"@, "/dev"@, "/etc"@, "/lib"@, "/lib64"@, "/proc"@, "/sbin"@, "/sys"@, "/usr"@]
}

/// Whether a path is the root or lies in one of the protected system
/// directories.
pub open spec fn spec_is_protected(path: Seq<char>) -> bool {
    path == "/"@ || exists|i: int|
        0 <= i < protected_roots().len() && (path == #[trigger] protected_roots()[i] || starts_with(
            path,
            protected_roots()[i] + "/"@,
        ))
}

/// Refuses the root and the protected system directories (see
/// `spec_is_protected`), with the reason.
pub fn check_protected(path: &str) -> (r: Result<(), String>)
    ensures
        r is Ok <==> !spec_is_protected(path@),
        r matches Err(m) ==> m@ == "protected system path"@,
{
    let roots: Vec<&str> = vec!["/bin", "/boot", "/dev", "/etc", "/lib", "/lib64", "/proc", "/sbin", "/sys", "/usr"];
    proof {
        assert(roots@.map_values(|x: &str| x@) =~= protected_roots());
    }
    if str_eq(path, "/") {
        return Err(String::from_str("protected system path"));
    }
    let mut i: usize = 0;
    while i < roots.len()
        invariant
            roots@.map_values(|x: &str| x@) == protected_roots(),
            roots.len() == protected_roots().len(),
            i <= roots.len(),
            path@ != "/"@,
            forall|j: int| 0 <= j < i ==> !(path@ == #[trigger] protected_roots()[j] || starts_with(
                path@,
                protected_roots()[j] + "/"@,
            )),
        decreases roots.len() - i,
    {
        let root = roots[i];
        proof {
            assert(root@ == protected_roots()[i as int]);
        }
        let mut dir = String::from_str(root);
        dir.append("/");
        if str_eq(path, root) || starts_with_str(path, dir.as_str()) {
            return Err(String::from_str("protected system path"));
        }
        i += 1;
    }
    Ok(())
}

} // verus!
