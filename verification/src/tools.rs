//! The tools an agent can call: each tool's name and the description
//! shown to the model.

use vstd::prelude::*;

verus! {

/// The `bash` tool.
pub struct BashTool;

impl BashTool {
    pub fn name(&self) -> (r: &'static str)
        ensures
            r@ == "bash"@,
    {
        "bash"
    }

    pub fn description(&self) -> (r: &'static str)
        ensures
            r@ == "Execute a shell command with timeout. Output is captured and returned."@,
    {
        "Execute a shell command with timeout. Output is captured and returned."
    }
}

/// The `edit` tool.
pub struct EditTool;

impl EditTool {
    pub fn name(&self) -> (r: &'static str)
        ensures
            r@ == "edit"@,
    {
        "edit"
    }

    pub fn description(&self) -> (r: &'static str)
        ensures
            r@ == "Replace an exact string in a file. Fails if the string appears multiple times (use replaceAll to override). Relative paths resolve from cwd."@,
    {
        "Replace an exact string in a file. Fails if the string appears multiple times (use replaceAll to override). Relative paths resolve from cwd."
    }
}

/// The `glob` tool.
pub struct GlobTool;

impl GlobTool {
    pub fn name(&self) -> (r: &'static str)
        ensures
            r@ == "glob"@,
    {
        "glob"
    }

    pub fn description(&self) -> (r: &'static str)
        ensures
            r@ == "Find files matching a glob pattern (e.g. '**/*.rs', 'src/**/*.ts')."@,
    {
        "Find files matching a glob pattern (e.g. '**/*.rs', 'src/**/*.ts')."
    }
}

/// The `grep` tool.
pub struct GrepTool;

impl GrepTool {
    pub fn name(&self) -> (r: &'static str)
        ensures
            r@ == "grep"@,
    {
        "grep"
    }

    pub fn description(&self) -> (r: &'static str)
        ensures
            r@ == "Search file contents with regex. Use include to filter by extension (e.g. '*.rs')."@,
    {
        "Search file contents with regex. Use include to filter by extension (e.g. '*.rs')."
    }
}

/// The `memory_read` tool.
pub struct MemoryReadTool;

impl MemoryReadTool {
    pub fn name(&self) -> (r: &'static str)
        ensures
            r@ == "memory_read"@,
    {
        "memory_read"
    }

    pub fn description(&self) -> (r: &'static str)
        ensures
            r@ == "Read memory entries. With no params, returns an overview of all \
         scopes and entry counts. Filter by scope/category/search to get \
         specific entries. Memory is the only way to access past conclusions, \
         decisions, and preferences — check it before important decisions."@,
    {
        "Read memory entries. With no params, returns an overview of all \
         scopes and entry counts. Filter by scope/category/search to get \
         specific entries. Memory is the only way to access past conclusions, \
         decisions, and preferences — check it before important decisions."
    }
}

/// The `memory_record` tool.
pub struct MemoryRecordTool;

impl MemoryRecordTool {
    pub fn name(&self) -> (r: &'static str)
        ensures
            r@ == "memory_record"@,
    {
        "memory_record"
    }

    pub fn description(&self) -> (r: &'static str)
        ensures
            r@ == "Record a memory entry. Memory is NOT injected into the system prompt \
         — use memory_read to retrieve it when needed. Only record stable \
         conclusions, decisions, preferences, or patterns. Never record \
         transient state or single-use operations."@,
    {
        "Record a memory entry. Memory is NOT injected into the system prompt \
         — use memory_read to retrieve it when needed. Only record stable \
         conclusions, decisions, preferences, or patterns. Never record \
         transient state or single-use operations."
    }
}

/// The `question` tool.
pub struct QuestionTool;

impl QuestionTool {
    pub fn name(&self) -> (r: &'static str)
        ensures
            r@ == "question"@,
    {
        "question"
    }

    pub fn description(&self) -> (r: &'static str)
        ensures
            r@ == "Ask the user one or more multiple-choice questions and wait for their answers. Use to gather preferences or resolve ambiguity. Each question shows selectable options; the user may also type a custom answer."@,
    {
        "Ask the user one or more multiple-choice questions and wait for their answers. Use to gather preferences or resolve ambiguity. Each question shows selectable options; the user may also type a custom answer."
    }
}

/// The `read` tool.
pub struct ReadTool;

impl ReadTool {
    pub fn name(&self) -> (r: &'static str)
        ensures
            r@ == "read"@,
    {
        "read"
    }

    pub fn description(&self) -> (r: &'static str)
        ensures
            r@ == "Read a file or part of it with line numbers. Use offset/limit to read a slice of a large file; directories list their entries. Binary files are rejected."@,
    {
        "Read a file or part of it with line numbers. Use offset/limit to read a slice of a large file; directories list their entries. Binary files are rejected."
    }
}

/// The `rm` tool.
pub struct RmTool;

impl RmTool {
    pub fn name(&self) -> (r: &'static str)
        ensures
            r@ == "rm"@,
    {
        "rm"
    }

    pub fn description(&self) -> (r: &'static str)
        ensures
            r@ == "Delete a file or directory. Directories require recursive: true. System paths are refused. Relative paths resolve from cwd."@,
    {
        "Delete a file or directory. Directories require recursive: true. System paths are refused. Relative paths resolve from cwd."
    }
}

/// The `skill` tool.
pub struct SkillTool;

impl SkillTool {
    pub fn name(&self) -> (r: &'static str)
        ensures
            r@ == "skill"@,
    {
        "skill"
    }

    pub fn description(&self) -> (r: &'static str)
        ensures
            r@ == "Load a specialized skill by name. Returns the skill's SKILL.md instructions for you to follow. Use when the task matches an available skill."@,
    {
        "Load a specialized skill by name. Returns the skill's SKILL.md instructions for you to follow. Use when the task matches an available skill."
    }
}

/// The `task` tool.
pub struct TaskTool;

impl TaskTool {
    pub fn name(&self) -> (r: &'static str)
        ensures
            r@ == "task"@,
    {
        "task"
    }

    pub fn description(&self) -> (r: &'static str)
        ensures
            r@ == "Delegate a self-contained task to a sub-agent. The sub-agent runs its own tool loop with the selected agent's instructions and returns a final result. Use for multi-step research or work that can run autonomously."@,
    {
        "Delegate a self-contained task to a sub-agent. The sub-agent runs its own tool loop with the selected agent's instructions and returns a final result. Use for multi-step research or work that can run autonomously."
    }
}

/// The `todowrite` tool.
pub struct TodoWriteTool;

impl TodoWriteTool {
    pub fn name(&self) -> (r: &'static str)
        ensures
            r@ == "todowrite"@,
    {
        "todowrite"
    }

    pub fn description(&self) -> (r: &'static str)
        ensures
            r@ == "Create and update the session todo list. Always pass the full list; it replaces the previous one. Use for multi-step work and keep exactly one item in_progress at a time."@,
    {
        "Create and update the session todo list. Always pass the full list; it replaces the previous one. Use for multi-step work and keep exactly one item in_progress at a time."
    }
}

/// The `undo_edit` tool.
pub struct UndoEditTool;

impl UndoEditTool {
    pub fn name(&self) -> (r: &'static str)
        ensures
            r@ == "undo_edit"@,
    {
        "undo_edit"
    }

    pub fn description(&self) -> (r: &'static str)
        ensures
            r@ == "Restore a file to its previous state using an undo hash from write/edit."@,
    {
        "Restore a file to its previous state using an undo hash from write/edit."
    }
}

/// The `webfetch` tool.
pub struct WebFetchTool;

impl WebFetchTool {
    pub fn name(&self) -> (r: &'static str)
        ensures
            r@ == "webfetch"@,
    {
        "webfetch"
    }

    pub fn description(&self) -> (r: &'static str)
        ensures
            r@ == "Fetch content from a URL, returning text, markdown, or raw HTML. Markdown is the default."@,
    {
        "Fetch content from a URL, returning text, markdown, or raw HTML. Markdown is the default."
    }
}

/// The `websearch` tool.
pub struct WebSearchTool;

impl WebSearchTool {
    pub fn name(&self) -> (r: &'static str)
        ensures
            r@ == "websearch"@,
    {
        "websearch"
    }

    pub fn description(&self) -> (r: &'static str)
        ensures
            r@ == "Search the web. Returns titles, URLs, and snippets. The optional engine parameter \
         picks a backend (auto/bing/duckduckgo); auto falls back to the next engine when \
         one fails or returns nothing."@,
    {
        "Search the web. Returns titles, URLs, and snippets. The optional engine parameter \
         picks a backend (auto/bing/duckduckgo); auto falls back to the next engine when \
         one fails or returns nothing."
    }
}

/// The `write` tool.
pub struct WriteTool;

impl WriteTool {
    pub fn name(&self) -> (r: &'static str)
        ensures
            r@ == "write"@,
    {
        "write"
    }

    pub fn description(&self) -> (r: &'static str)
        ensures
            r@ == "Write content to a file (create or overwrite). Creates an undo blob for existing files. Relative paths resolve from cwd."@,
    {
        "Write content to a file (create or overwrite). Creates an undo blob for existing files. Relative paths resolve from cwd."
    }
}

} // verus!
