//! Tool catalog — central metadata registry for tool abstractions.

use std::collections::HashMap;
use vstd::prelude::*;
use crate::text::{
    ends_with, split_on, split_str, starts_with, str_eq, strip_prefix, strs_view, trim,
    trim_matches, trim_matches_str, trim_str, views,
};

verus! {

#[derive(Debug, Clone, Copy, PartialEq, Eq, Structural)]
pub enum ToolCategory {
    Filesystem,
    Shell,
    Network,
    Interaction,
    Undo,
}

#[derive(Debug, Clone, Copy)]
pub struct ToolMeta {
    pub name: &'static str,
    pub category: ToolCategory,
    pub description: &'static str,
    pub prompt_hint: &'static str,
}

pub struct SpecToolMeta {
    pub name: Seq<char>,
    pub category: ToolCategory,
    pub description: Seq<char>,
    pub prompt_hint: Seq<char>,
}

impl View for ToolMeta {
    type V = SpecToolMeta;

    open spec fn view(&self) -> SpecToolMeta {
        SpecToolMeta {
            name: self.name@,
            category: self.category,
            description: self.description@,
            prompt_hint: self.prompt_hint@,
        }
    }
}

pub open spec fn metas_view(v: Seq<ToolMeta>) -> Seq<SpecToolMeta> {
    v.map_values(|m: ToolMeta| m@)
}

/// Every tool with its metadata, in catalog order.
pub open spec fn spec_catalog() -> Seq<SpecToolMeta> {
    seq![
        SpecToolMeta {
            name: "read"@,
            category: ToolCategory::Filesystem,
            description: "Read a file or a slice of it, with line numbers."@,
            prompt_hint: "Use offset/limit to read only the part you need."@,
        },
        SpecToolMeta {
            name: "write"@,
            category: ToolCategory::Filesystem,
            description: "Write a file to the filesystem."@,
            prompt_hint: "Use for creating new content or replacing file contents."@,
        },
        SpecToolMeta {
            name: "edit"@,
            category: ToolCategory::Filesystem,
            description: "Edit a file by replacing exact text."@,
            prompt_hint: "Use for surgical replacements."@,
        },
        SpecToolMeta {
            name: "apply_patch"@,
            category: ToolCategory::Filesystem,
            description: "Apply an add/update/delete patch across files."@,
            prompt_hint: "Use for multi-file or multi-hunk edits in one call."@,
        },
        SpecToolMeta {
            name: "rm"@,
            category: ToolCategory::Filesystem,
            description: "Delete a file or directory."@,
            prompt_hint: "Use for safe deletion only."@,
        },
        SpecToolMeta {
            name: "bash"@,
            category: ToolCategory::Shell,
            description: "Execute shell commands."@,
            prompt_hint: "Use for git, build, and system operations."@,
        },
        SpecToolMeta {
            name: "glob"@,
            category: ToolCategory::Filesystem,
            description: "Find files by glob pattern."@,
            prompt_hint: "Use for path discovery."@,
        },
        SpecToolMeta {
            name: "grep"@,
            category: ToolCategory::Filesystem,
            description: "Search file contents by regex."@,
            prompt_hint: "Use for code and text search."@,
        },
        SpecToolMeta {
            name: "webfetch"@,
            category: ToolCategory::Network,
            description: "Fetch content from a URL."@,
            prompt_hint: "Use for reading remote pages directly."@,
        },
        SpecToolMeta {
            name: "websearch"@,
            category: ToolCategory::Network,
            description: "Search the web."@,
            prompt_hint: "Use for discovery and quick lookup."@,
        },
        SpecToolMeta {
            name: "todowrite"@,
            category: ToolCategory::Interaction,
            description: "Maintain the session todo list."@,
            prompt_hint: "State machine: create list \u{2192} mark first in_progress \u{2192} complete \u{2192} advance."@,
        },
        SpecToolMeta {
            name: "skill"@,
            category: ToolCategory::Interaction,
            description: "Load a specialized skill by name."@,
            prompt_hint: "Use when a task matches an available skill."@,
        },
        SpecToolMeta {
            name: "question"@,
            category: ToolCategory::Interaction,
            description: "Ask the user structured questions."@,
            prompt_hint: "Use to gather preferences or resolve ambiguity."@,
        },
        SpecToolMeta {
            name: "task"@,
            category: ToolCategory::Interaction,
            description: "Delegate a task to a sub-agent."@,
            prompt_hint: "Use for autonomous multi-step research or work."@,
        },
        SpecToolMeta {
            name: "undo_edit"@,
            category: ToolCategory::Undo,
            description: "Restore a file from an undo blob."@,
            prompt_hint: "Use after write/edit when rollback is needed."@,
        },
    ]
}

/// The catalog of tools.
pub fn tool_catalog() -> (r: Vec<ToolMeta>)
    ensures
        metas_view(r@) == spec_catalog(),
{
    let r = vec![
        ToolMeta {
            name: "read",
            category: ToolCategory::Filesystem,
            description: "Read a file or a slice of it, with line numbers.",
            prompt_hint: "Use offset/limit to read only the part you need.",
        },
        ToolMeta {
            name: "write",
            category: ToolCategory::Filesystem,
            description: "Write a file to the filesystem.",
            prompt_hint: "Use for creating new content or replacing file contents.",
        },
        ToolMeta {
            name: "edit",
            category: ToolCategory::Filesystem,
            description: "Edit a file by replacing exact text.",
            prompt_hint: "Use for surgical replacements.",
        },
        ToolMeta {
            name: "apply_patch",
            category: ToolCategory::Filesystem,
            description: "Apply an add/update/delete patch across files.",
            prompt_hint: "Use for multi-file or multi-hunk edits in one call.",
        },
        ToolMeta {
            name: "rm",
            category: ToolCategory::Filesystem,
            description: "Delete a file or directory.",
            prompt_hint: "Use for safe deletion only.",
        },
        ToolMeta {
            name: "bash",
            category: ToolCategory::Shell,
            description: "Execute shell commands.",
            prompt_hint: "Use for git, build, and system operations.",
        },
        ToolMeta {
            name: "glob",
            category: ToolCategory::Filesystem,
            description: "Find files by glob pattern.",
            prompt_hint: "Use for path discovery.",
        },
        ToolMeta {
            name: "grep",
            category: ToolCategory::Filesystem,
            description: "Search file contents by regex.",
            prompt_hint: "Use for code and text search.",
        },
        ToolMeta {
            name: "webfetch",
            category: ToolCategory::Network,
            description: "Fetch content from a URL.",
            prompt_hint: "Use for reading remote pages directly.",
        },
        ToolMeta {
            name: "websearch",
            category: ToolCategory::Network,
            description: "Search the web.",
            prompt_hint: "Use for discovery and quick lookup.",
        },
        ToolMeta {
            name: "todowrite",
            category: ToolCategory::Interaction,
            description: "Maintain the session todo list.",
            prompt_hint: "State machine: create list \u{2192} mark first in_progress \u{2192} complete \u{2192} advance.",
        },
        ToolMeta {
            name: "skill",
            category: ToolCategory::Interaction,
            description: "Load a specialized skill by name.",
            prompt_hint: "Use when a task matches an available skill.",
        },
        ToolMeta {
            name: "question",
            category: ToolCategory::Interaction,
            description: "Ask the user structured questions.",
            prompt_hint: "Use to gather preferences or resolve ambiguity.",
        },
        ToolMeta {
            name: "task",
            category: ToolCategory::Interaction,
            description: "Delegate a task to a sub-agent.",
            prompt_hint: "Use for autonomous multi-step research or work.",
        },
        ToolMeta {
            name: "undo_edit",
            category: ToolCategory::Undo,
            description: "Restore a file from an undo blob.",
            prompt_hint: "Use after write/edit when rollback is needed.",
        },
    ];
    proof {
        assert(metas_view(r@) =~= spec_catalog());
    }
    r
}

/// First entry of `metas` from `i` on with the given name.
pub open spec fn meta_from(metas: Seq<SpecToolMeta>, name: Seq<char>, i: int) -> Option<SpecToolMeta>
    decreases metas.len() - i,
{
    if i < 0 || i >= metas.len() {
        None
    } else if metas[i].name == name {
        Some(metas[i])
    } else {
        meta_from(metas, name, i + 1)
    }
}

/// The catalog entry of a tool name.
pub open spec fn spec_tool_meta(name: Seq<char>) -> Option<SpecToolMeta> {
    meta_from(spec_catalog(), name, 0)
}

/// The catalog entry of a tool name.
pub fn tool_meta(name: &str) -> (r: Option<ToolMeta>)
    ensures
        match r {
            Some(m) => spec_tool_meta(name@) == Some(m@),
            None => spec_tool_meta(name@) is None,
        },
{
    let cat = tool_catalog();
    let ghost cs = metas_view(cat@);
    assert(cs.len() == cat.len());
    let mut i: usize = 0;
    while i < cat.len()
        invariant
            cs == metas_view(cat@),
            cs == spec_catalog(),
            cs.len() == cat.len(),
            i <= cat.len(),
            spec_tool_meta(name@) == meta_from(cs, name@, i as int),
        decreases cat.len() - i,
    {
        assert(cs[i as int] == cat@[i as int]@);
        if str_eq(cat[i].name, name) {
            return Some(cat[i]);
        }
        i += 1;
    }
    None
}

/// Names of the tools, in catalog order.
pub open spec fn all_names() -> Seq<Seq<char>> {
    spec_catalog().map_values(|m: SpecToolMeta| m.name)
}

pub fn tool_names() -> (r: Vec<&'static str>)
    ensures
        strs_view(r@) == all_names(),
{
    let cat = tool_catalog();
    let mut out: Vec<&'static str> = Vec::new();
    let mut i: usize = 0;
    while i < cat.len()
        invariant
            metas_view(cat@) == spec_catalog(),
            i <= cat.len(),
            strs_view(out@) =~= all_names().take(i as int),
        decreases cat.len() - i,
    {
        assert(metas_view(cat@)[i as int] == cat@[i as int]@);
        out.push(cat[i].name);
        proof {
            assert(all_names().take(i + 1) =~= all_names().take(i as int).push(cat@[i as int].name@));
        }
        i += 1;
    }
    proof {
        assert(all_names().take(cat.len() as int) =~= all_names());
    }
    out
}

pub fn prompt_hints() -> (r: Vec<&'static str>)
    ensures
        strs_view(r@) == spec_catalog().map_values(|m: SpecToolMeta| m.prompt_hint),
{
    let cat = tool_catalog();
    let ghost hints = spec_catalog().map_values(|m: SpecToolMeta| m.prompt_hint);
    let mut out: Vec<&'static str> = Vec::new();
    let mut i: usize = 0;
    while i < cat.len()
        invariant
            metas_view(cat@) == spec_catalog(),
            hints == spec_catalog().map_values(|m: SpecToolMeta| m.prompt_hint),
            i <= cat.len(),
            strs_view(out@) =~= hints.take(i as int),
        decreases cat.len() - i,
    {
        assert(metas_view(cat@)[i as int] == cat@[i as int]@);
        out.push(cat[i].prompt_hint);
        proof {
            assert(hints.take(i + 1) =~= hints.take(i as int).push(cat@[i as int].prompt_hint@));
        }
        i += 1;
    }
    proof {
        assert(hints.take(cat.len() as int) =~= hints);
    }
    out
}

/// Names of the tools of `metas` in a category, in order.
pub open spec fn cat_names(metas: Seq<SpecToolMeta>, cat: ToolCategory) -> Seq<Seq<char>>
    decreases metas.len(),
{
    if metas.len() == 0 {
        seq![]
    } else if metas.last().category == cat {
        cat_names(metas.drop_last(), cat).push(metas.last().name)
    } else {
        cat_names(metas.drop_last(), cat)
    }
}

/// Names of the catalog's tools in a category.
fn category_names(cat: &Vec<ToolMeta>, category: ToolCategory) -> (r: Vec<&'static str>)
    ensures
        strs_view(r@) == cat_names(metas_view(cat@), category),
{
    let ghost ms = metas_view(cat@);
    let mut out: Vec<&'static str> = Vec::new();
    let mut i: usize = 0;
    while i < cat.len()
        invariant
            ms == metas_view(cat@),
            i <= cat.len(),
            strs_view(out@) =~= cat_names(ms.take(i as int), category),
        decreases cat.len() - i,
    {
        proof {
            assert(ms.take(i + 1).drop_last() =~= ms.take(i as int));
            assert(ms.take(i + 1).last() == cat@[i as int]@);
        }
        if cat[i].category == category {
            out.push(cat[i].name);
        }
        i += 1;
    }
    proof {
        assert(ms.take(cat.len() as int) =~= ms);
    }
    out
}

/// The categories in their fixed order.
pub open spec fn all_categories() -> Seq<ToolCategory> {
    seq![
        ToolCategory::Filesystem,
        ToolCategory::Shell,
        ToolCategory::Network,
        ToolCategory::Interaction,
        ToolCategory::Undo,
    ]
}

/// Each category with the names of its tools.
pub fn registry_category_names() -> (r: Vec<(ToolCategory, Vec<&'static str>)>)
    ensures
        r.len() == 5,
        forall|i: int|
            0 <= i < 5 ==> (#[trigger] r@[i]).0 == all_categories()[i] && strs_view(r@[i].1@)
                == cat_names(spec_catalog(), all_categories()[i]),
{
    let cat = tool_catalog();
    let mut out: Vec<(ToolCategory, Vec<&'static str>)> = Vec::new();
    out.push((ToolCategory::Filesystem, category_names(&cat, ToolCategory::Filesystem)));
    out.push((ToolCategory::Shell, category_names(&cat, ToolCategory::Shell)));
    out.push((ToolCategory::Network, category_names(&cat, ToolCategory::Network)));
    out.push((ToolCategory::Interaction, category_names(&cat, ToolCategory::Interaction)));
    out.push((ToolCategory::Undo, category_names(&cat, ToolCategory::Undo)));
    out
}

/// The tool a catalog name creates.
#[derive(Debug, Clone, Copy, PartialEq, Eq, Structural)]
pub enum ToolKind {
    Read,
    Write,
    Edit,
    ApplyPatch,
    Rm,
    Bash,
    Glob,
    Grep,
    WebFetch,
    WebSearch,
    TodoWrite,
    Skill,
    Question,
    Task,
    UndoEdit,
}

pub open spec fn spec_create_tool(name: Seq<char>) -> Option<ToolKind> {
    if name == "read"@ {
        Some(ToolKind::Read)
    } else if name == "write"@ {
        Some(ToolKind::Write)
    } else if name == "edit"@ {
        Some(ToolKind::Edit)
    } else if name == "apply_patch"@ {
        Some(ToolKind::ApplyPatch)
    } else if name == "rm"@ {
        Some(ToolKind::Rm)
    } else if name == "bash"@ {
        Some(ToolKind::Bash)
    } else if name == "glob"@ {
        Some(ToolKind::Glob)
    } else if name == "grep"@ {
        Some(ToolKind::Grep)
    } else if name == "webfetch"@ {
        Some(ToolKind::WebFetch)
    } else if name == "websearch"@ {
        Some(ToolKind::WebSearch)
    } else if name == "todowrite"@ {
        Some(ToolKind::TodoWrite)
    } else if name == "skill"@ {
        Some(ToolKind::Skill)
    } else if name == "question"@ {
        Some(ToolKind::Question)
    } else if name == "task"@ {
        Some(ToolKind::Task)
    } else if name == "undo_edit"@ {
        Some(ToolKind::UndoEdit)
    } else {
        None
    }
}

/// Which tool a name creates, if any.
pub fn create_tool(name: &str) -> (r: Option<ToolKind>)
    ensures
        r == spec_create_tool(name@),
{
    if str_eq(name, "read") {
        Some(ToolKind::Read)
    } else if str_eq(name, "write") {
        Some(ToolKind::Write)
    } else if str_eq(name, "edit") {
        Some(ToolKind::Edit)
    } else if str_eq(name, "apply_patch") {
        Some(ToolKind::ApplyPatch)
    } else if str_eq(name, "rm") {
        Some(ToolKind::Rm)
    } else if str_eq(name, "bash") {
        Some(ToolKind::Bash)
    } else if str_eq(name, "glob") {
        Some(ToolKind::Glob)
    } else if str_eq(name, "grep") {
        Some(ToolKind::Grep)
    } else if str_eq(name, "webfetch") {
        Some(ToolKind::WebFetch)
    } else if str_eq(name, "websearch") {
        Some(ToolKind::WebSearch)
    } else if str_eq(name, "todowrite") {
        Some(ToolKind::TodoWrite)
    } else if str_eq(name, "skill") {
        Some(ToolKind::Skill)
    } else if str_eq(name, "question") {
        Some(ToolKind::Question)
    } else if str_eq(name, "task") {
        Some(ToolKind::Task)
    } else if str_eq(name, "undo_edit") {
        Some(ToolKind::UndoEdit)
    } else {
        None
    }
}

/// What a preset table holds: preset name → tool names.
pub uninterp spec fn preset_map(m: HashMap<String, Vec<String>>) -> Map<Seq<char>, Seq<Seq<char>>>;

/// Looks a preset up by name (`HashMap::get`, the list cloned).
#[verifier::external_body]
fn preset_get(m: &HashMap<String, Vec<String>>, key: &str) -> (r: Option<Vec<String>>)
    ensures
        match r {
            Some(v) => preset_map(*m).contains_key(key@) && views(v@) == preset_map(*m)[key@],
            None => !preset_map(*m).contains_key(key@),
        },
{
    m.get(key).cloned()
}

/// Empties a table (`HashMap::clear`): it then holds no preset.
#[verifier::external_body]
fn presets_clear(m: &mut HashMap<String, Vec<String>>)
    ensures
        preset_map(*final(m)).dom() == Set::<Seq<char>>::empty(),
{
    m.clear();
}

/// Sets a preset (`HashMap::insert`): `name` now maps to `tools`, every
/// other preset is kept.
#[verifier::external_body]
fn presets_insert(m: &mut HashMap<String, Vec<String>>, name: String, tools: Vec<String>)
    ensures
        preset_map(*final(m)) == preset_map(*old(m)).insert(name@, views(tools@)),
{
    m.insert(name, tools);
}

/// A preset table with no preset.
pub fn empty_preset_table() -> (r: HashMap<String, Vec<String>>)
    ensures
        preset_map(r) == Map::<Seq<char>, Seq<Seq<char>>>::empty(),
{
    let mut m: HashMap<String, Vec<String>> = HashMap::new();
    presets_clear(&mut m);
    proof {
        assert(preset_map(m) =~= Map::<Seq<char>, Seq<Seq<char>>>::empty());
    }
    m
}

/// Sets the preset `name` to `tools` in a table, keeping the others.
pub fn add_preset(m: &mut HashMap<String, Vec<String>>, name: String, tools: Vec<String>)
    ensures
        preset_map(*final(m)) == preset_map(*old(m)).insert(name@, views(tools@)),
{
    presets_insert(m, name, tools);
}

/// The names of `names` that are catalog tools, in order.
pub open spec fn known_names(names: Seq<Seq<char>>) -> Seq<Seq<char>>
    decreases names.len(),
{
    if names.len() == 0 {
        seq![]
    } else if spec_tool_meta(names.last()) is Some {
        known_names(names.drop_last()).push(spec_tool_meta(names.last()).unwrap().name)
    } else {
        known_names(names.drop_last())
    }
}

/// The names of `names` not in `drop`, in order.
pub open spec fn without(names: Seq<Seq<char>>, drop: Seq<Seq<char>>) -> Seq<Seq<char>>
    decreases names.len(),
{
    if names.len() == 0 {
        seq![]
    } else if drop.contains(names.last()) {
        without(names.drop_last(), drop)
    } else {
        without(names.drop_last(), drop).push(names.last())
    }
}

/// An entry of an explicit list, without spaces and quotes.
pub open spec fn clean_entry(s: Seq<char>) -> Seq<char> {
    trim_matches(trim_matches(trim(s), '"'), '\'')
}

/// The inside of `[...]`, when `t` is a bracketed list.
pub open spec fn list_inner(t: Seq<char>) -> Option<Seq<char>> {
    if t.len() >= 2 && t[0] == '[' && t[t.len() - 1] == ']' {
        Some(t.subrange(1, t.len() - 1))
    } else {
        None
    }
}

pub open spec fn read_only_drop() -> Seq<Seq<char>> {
    seq!["write"@, "edit"@, "apply_patch"@, "rm"@, "bash"@]
}

pub open spec fn no_write_drop() -> Seq<Seq<char>> {
    seq!["write"@, "edit"@, "apply_patch"@, "rm"@]
}

pub open spec fn no_internet_drop() -> Seq<Seq<char>> {
    seq!["webfetch"@, "websearch"@]
}

/// Tool names a `tools` spec stands for, before the sub-agent filter.
pub open spec fn spec_resolve_preset(spec: Seq<char>, presets: Map<Seq<char>, Seq<Seq<char>>>) -> Seq<
    Seq<char>,
> {
    let t = trim(spec);
    if list_inner(t) is Some {
        known_names(split_on(list_inner(t).unwrap(), ',').map_values(|e: Seq<char>| clean_entry(e)))
    } else if presets.contains_key(t) {
        known_names(presets[t])
    } else if t == ""@ || t == "all"@ {
        all_names()
    } else if t == "none"@ {
        seq![]
    } else if t == "read_only"@ {
        without(all_names(), read_only_drop())
    } else if t == "no_write"@ {
        without(all_names(), no_write_drop())
    } else if t == "no_internet"@ {
        without(all_names(), no_internet_drop())
    } else {
        match spec_tool_meta(t) {
            Some(m) => seq![m.name],
            None => seq![],
        }
    }
}

/// Tools a sub-agent may never use.
pub open spec fn subtask_exclude() -> Seq<Seq<char>> {
    seq!["task"@, "question"@, "todowrite"@]
}

/// Catalog entries of `names` (skipping unknown ones), without the
/// sub-agent exclusions when `is_subagent`.
pub open spec fn metas_for(names: Seq<Seq<char>>, is_subagent: bool) -> Seq<SpecToolMeta>
    decreases names.len(),
{
    if names.len() == 0 {
        seq![]
    } else {
        let rest = metas_for(names.drop_last(), is_subagent);
        match spec_tool_meta(names.last()) {
            Some(m) => if is_subagent && subtask_exclude().contains(m.name) {
                rest
            } else {
                rest.push(m)
            },
            None => rest,
        }
    }
}

/// The names of `names` that are catalog tools.
fn known_names_exec(names: &Vec<String>) -> (r: Vec<&'static str>)
    ensures
        strs_view(r@) == known_names(views(names@)),
{
    let ghost ns = views(names@);
    let mut out: Vec<&'static str> = Vec::new();
    let mut i: usize = 0;
    while i < names.len()
        invariant
            ns == views(names@),
            i <= names.len(),
            strs_view(out@) =~= known_names(ns.take(i as int)),
        decreases names.len() - i,
    {
        proof {
            assert(ns.take(i + 1).drop_last() =~= ns.take(i as int));
            assert(ns.take(i + 1).last() == names@[i as int]@);
        }
        match tool_meta(names[i].as_str()) {
            Some(m) => out.push(m.name),
            None => {},
        }
        i += 1;
    }
    proof {
        assert(ns.take(names.len() as int) =~= ns);
    }
    out
}

fn in_list(list: &Vec<&'static str>, name: &str) -> (r: bool)
    ensures
        r == strs_view(list@).contains(name@),
{
    let mut i: usize = 0;
    while i < list.len()
        invariant
            i <= list.len(),
            forall|k: int| 0 <= k < i ==> strs_view(list@)[k] != name@,
        decreases list.len() - i,
    {
        if str_eq(list[i], name) {
            assert(strs_view(list@)[i as int] == name@);
            return true;
        }
        i += 1;
    }
    false
}

/// All catalog names except those in `drop`.
fn all_without(drop: &Vec<&'static str>) -> (r: Vec<&'static str>)
    ensures
        strs_view(r@) == without(all_names(), strs_view(drop@)),
{
    let names = tool_names();
    let ghost ns = strs_view(names@);
    let mut out: Vec<&'static str> = Vec::new();
    let mut i: usize = 0;
    while i < names.len()
        invariant
            ns == strs_view(names@),
            ns == all_names(),
            i <= names.len(),
            strs_view(out@) =~= without(ns.take(i as int), strs_view(drop@)),
        decreases names.len() - i,
    {
        proof {
            assert(ns.take(i + 1).drop_last() =~= ns.take(i as int));
            assert(ns.take(i + 1).last() == names@[i as int]@);
        }
        if !in_list(drop, names[i]) {
            out.push(names[i]);
        }
        i += 1;
    }
    proof {
        assert(ns.take(names.len() as int) =~= ns);
    }
    out
}

/// Resolve a frontmatter `tools` spec into tool names.
///
/// `spec` accepts:
/// - empty or `"all"` — every tool
/// - `"none"` — no tools
/// - a builtin preset: `read_only`, `no_write`, `no_internet`
/// - a custom preset from config `presets` (overrides builtins on key clash)
/// - an explicit bracketed list: `[read, grep, bash]`
/// - a single tool name
pub fn resolve_preset_names(spec: &str, custom_presets: &HashMap<String, Vec<String>>) -> (r: Vec<
    &'static str,
>)
    ensures
        strs_view(r@) == spec_resolve_preset(spec@, preset_map(*custom_presets)),
{
    let trimmed = trim_str(spec);
    let t = crate::text::chars_of(trimmed.as_str());
    if t.len() >= 2 && t[0] == '[' && t[t.len() - 1] == ']' {
        let inner = crate::text::string_of_range(&t, 1, t.len() - 1);
        proof {
            assert(list_inner(trimmed@) == Some(inner@));
        }
        let parts = split_str(inner.as_str(), ',');
        let mut cleaned: Vec<String> = Vec::new();
        let mut i: usize = 0;
        while i < parts.len()
            invariant
                i <= parts.len(),
                views(cleaned@) =~= views(parts@).take(i as int).map_values(
                    |e: Seq<char>| clean_entry(e),
                ),
            decreases parts.len() - i,
        {
            let a = trim_str(parts[i].as_str());
            let b = trim_matches_str(a.as_str(), '"');
            let c = trim_matches_str(b.as_str(), '\'');
            let ghost c0 = views(cleaned@);
            cleaned.push(c);
            proof {
                assert(views(cleaned@) =~= c0.push(clean_entry(parts@[i as int]@)));
                assert(views(parts@).take(i + 1) =~= views(parts@).take(i as int).push(
                    parts@[i as int]@,
                ));
            }
            i += 1;
        }
        proof {
            assert(views(parts@).take(parts.len() as int) =~= views(parts@));
        }
        return known_names_exec(&cleaned);
    }
    proof {
        assert(list_inner(trimmed@) is None);
    }
    match preset_get(custom_presets, trimmed.as_str()) {
        Some(list) => {
            return known_names_exec(&list);
        },
        None => {},
    }
    if str_eq(trimmed.as_str(), "") || str_eq(trimmed.as_str(), "all") {
        tool_names()
    } else if str_eq(trimmed.as_str(), "none") {
        Vec::new()
    } else if str_eq(trimmed.as_str(), "read_only") {
        let drop = vec!["write", "edit", "apply_patch", "rm", "bash"];
        proof {
            assert(strs_view(drop@) =~= read_only_drop());
        }
        all_without(&drop)
    } else if str_eq(trimmed.as_str(), "no_write") {
        let drop = vec!["write", "edit", "apply_patch", "rm"];
        proof {
            assert(strs_view(drop@) =~= no_write_drop());
        }
        all_without(&drop)
    } else if str_eq(trimmed.as_str(), "no_internet") {
        let drop = vec!["webfetch", "websearch"];
        proof {
            assert(strs_view(drop@) =~= no_internet_drop());
        }
        all_without(&drop)
    } else {
        match tool_meta(trimmed.as_str()) {
            Some(m) => {
                let r = vec![m.name];
                proof {
                    assert(strs_view(r@) =~= seq![m.name@]);
                }
                r
            },
            None => {
                let r: Vec<&'static str> = Vec::new();
                proof {
                    assert(strs_view(r@) =~= Seq::<Seq<char>>::empty());
                }
                r
            },
        }
    }
}

/// Resolve a frontmatter `tools` spec into concrete tool metadata.
/// When `is_subagent` is true, `task`, `question` and `todowrite` are
/// always excluded.
pub fn resolve_tool_names(
    spec: &str,
    custom_presets: &HashMap<String, Vec<String>>,
    is_subagent: bool,
) -> (r: Vec<ToolMeta>)
    ensures
        metas_view(r@) == metas_for(
            spec_resolve_preset(spec@, preset_map(*custom_presets)),
            is_subagent,
        ),
{
    let names = resolve_preset_names(spec, custom_presets);
    let ghost ns = strs_view(names@);
    let exclude = vec!["task", "question", "todowrite"];
    proof {
        assert(strs_view(exclude@) =~= subtask_exclude());
    }
    let mut out: Vec<ToolMeta> = Vec::new();
    let mut i: usize = 0;
    while i < names.len()
        invariant
            ns == strs_view(names@),
            strs_view(exclude@) == subtask_exclude(),
            i <= names.len(),
            metas_view(out@) =~= metas_for(ns.take(i as int), is_subagent),
        decreases names.len() - i,
    {
        proof {
            assert(ns.take(i + 1).drop_last() =~= ns.take(i as int));
            assert(ns.take(i + 1).last() == names@[i as int]@);
        }
        match tool_meta(names[i]) {
            Some(m) => {
                if !(is_subagent && in_list(&exclude, m.name)) {
                    out.push(m);
                }
            },
            None => {},
        }
        i += 1;
    }
    proof {
        assert(ns.take(names.len() as int) =~= ns);
    }
    out
}

/// Law: a sub-agent's tools never include `task`, `question` or
/// `todowrite`, whatever spec resolved them.
pub proof fn lemma_subagent_excludes(names: Seq<Seq<char>>)
    ensures
        forall|i: int|
            0 <= i < metas_for(names, true).len() ==> !subtask_exclude().contains(
                (#[trigger] metas_for(names, true)[i]).name,
            ),
    decreases names.len(),
{
    if names.len() > 0 {
        lemma_subagent_excludes(names.drop_last());
    }
}

/// Law: without sub-agent filtering, resolving keeps every resolved name,
/// in order, with its catalog entry.
pub proof fn lemma_known_names_resolve(names: Seq<Seq<char>>)
    ensures
        metas_for(known_names(names), false).map_values(|m: SpecToolMeta| m.name) == known_names(
            names,
        ),
    decreases names.len(),
{
    if names.len() > 0 {
        lemma_known_names_resolve(names.drop_last());
        let k = known_names(names.drop_last());
        if spec_tool_meta(names.last()) is Some {
            let m = spec_tool_meta(names.last()).unwrap();
            lemma_meta_name(names.last());
            lemma_meta_from_self(m.name);
            assert(known_names(names) == k.push(m.name));
            assert(metas_for(k.push(m.name), false) == metas_for(k, false).push(m)) by {
                assert(k.push(m.name).drop_last() =~= k);
            }
            assert(metas_for(known_names(names), false).map_values(|m: SpecToolMeta| m.name)
                =~= metas_for(k, false).map_values(|m: SpecToolMeta| m.name).push(m.name));
        }
    }
}

proof fn lemma_meta_from(metas: Seq<SpecToolMeta>, name: Seq<char>, i: int)
    requires
        0 <= i,
    ensures
        meta_from(metas, name, i) matches Some(m) ==> m.name == name,
    decreases metas.len() - i,
{
    if i < metas.len() && metas[i].name != name {
        lemma_meta_from(metas, name, i + 1);
    }
}

proof fn lemma_meta_name(name: Seq<char>)
    ensures
        spec_tool_meta(name) matches Some(m) ==> m.name == name,
{
    lemma_meta_from(spec_catalog(), name, 0);
}

proof fn lemma_meta_from_self(name: Seq<char>)
    ensures
        spec_tool_meta(name) matches Some(m) ==> spec_tool_meta(m.name) == Some(m),
{
    lemma_meta_name(name);
}


/// A tool is made exactly for the names of the catalog.
pub proof fn lemma_created_tools_are_the_catalog(name: Seq<char>)
    ensures
        spec_create_tool(name) is Some <==> all_names().contains(name),
{
    let a = all_names();
    assert(a =~= seq!["read"@, "write"@, "edit"@, "apply_patch"@, "rm"@, "bash"@, "glob"@, "grep"@, "webfetch"@, "websearch"@, "todowrite"@, "skill"@, "question"@, "task"@, "undo_edit"@]);
    if spec_create_tool(name) is Some {
        if name == "read"@ {
            assert(a[0] == name);
        } else if name == "write"@ {
            assert(a[1] == name);
        } else if name == "edit"@ {
            assert(a[2] == name);
        } else if name == "apply_patch"@ {
            assert(a[3] == name);
        } else if name == "rm"@ {
            assert(a[4] == name);
        } else if name == "bash"@ {
            assert(a[5] == name);
        } else if name == "glob"@ {
            assert(a[6] == name);
        } else if name == "grep"@ {
            assert(a[7] == name);
        } else if name == "webfetch"@ {
            assert(a[8] == name);
        } else if name == "websearch"@ {
            assert(a[9] == name);
        } else if name == "todowrite"@ {
            assert(a[10] == name);
        } else if name == "skill"@ {
            assert(a[11] == name);
        } else if name == "question"@ {
            assert(a[12] == name);
        } else if name == "task"@ {
            assert(a[13] == name);
        } else if name == "undo_edit"@ {
            assert(a[14] == name);
        }
    }
    if a.contains(name) {
        let i = choose|i: int| 0 <= i < a.len() && a[i] == name;
        assert(spec_create_tool(a[i]) is Some);
    }
}


/// Every tool of the catalog has a hint for the system prompt, and
/// `prompt_hints` lists them in catalog order.
pub proof fn lemma_prompt_hints_non_empty()
    ensures
        forall|i: int| 0 <= i < spec_catalog().len() ==> (#[trigger] spec_catalog()[i]).prompt_hint.len() > 0,
{
    reveal_strlit("Use offset/limit to read only the part you need.");
    reveal_strlit("Use for creating new content or replacing file contents.");
    reveal_strlit("Use for surgical replacements.");
    reveal_strlit("Use for multi-file or multi-hunk edits in one call.");
    reveal_strlit("Use for safe deletion only.");
    reveal_strlit("Use for git, build, and system operations.");
    reveal_strlit("Use for path discovery.");
    reveal_strlit("Use for code and text search.");
    reveal_strlit("Use for reading remote pages directly.");
    reveal_strlit("Use for discovery and quick lookup.");
    reveal_strlit("State machine: create list \u{2192} mark first in_progress \u{2192} complete \u{2192} advance.");
    reveal_strlit("Use when a task matches an available skill.");
    reveal_strlit("Use to gather preferences or resolve ambiguity.");
    reveal_strlit("Use for autonomous multi-step research or work.");
    reveal_strlit("Use after write/edit when rollback is needed.");
    let c = spec_catalog();
    assert forall|i: int| 0 <= i < c.len() implies (#[trigger] c[i]).prompt_hint.len() > 0 by {
        assert(0 <= i < 15);
    }
}

} // verus!
