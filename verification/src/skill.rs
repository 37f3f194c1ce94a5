//! Skills: SKILL.md instruction files looked up by name, their frontmatter,
//! and the built-in skills.

use vstd::prelude::*;
use crate::text::{
    chars_of, contains_char, contains_str, find, find_exec, has_at, has_at_exec, join, join_str,
    lines, lines_of, starts_with, starts_with_str, str_eq, string_of_range, strip_prefix,
    strip_prefix_str, trim, trim_matches, trim_matches_str, trim_start_newlines, trim_str, views,
};
use crate::tool::{join_path, join_path_exec, ToolContext};
use crate::read::{lemma_code_order_total, seq_le, str_le, code_le};

verus! {

/// A skill that can be loaded by name.
pub struct SkillEntry {
    pub name: String,
    pub description: String,
    pub path: String,
}

/// The directories searched for skills, highest priority first: the
/// project's `.openrust/skills`, `.opencode/skills` and `skills`, then the
/// global `skills` under the configuration directory.
pub open spec fn spec_skill_dirs(cwd: Seq<char>, config_dir: Seq<char>) -> Seq<Seq<char>> {
    seq![
        join_path(join_path(cwd, ".openrust"@), "skills"@),
        join_path(join_path(cwd, ".opencode"@), "skills"@),
        join_path(cwd, "skills"@),
        join_path(config_dir, "skills"@),
    ]
}

pub fn skill_dirs(cwd: &str, config_dir: &str) -> (r: Vec<String>)
    ensures
        views(r@) == spec_skill_dirs(cwd@, config_dir@),
{
    let a = join_path_exec(cwd, ".openrust");
    let b = join_path_exec(cwd, ".opencode");
    let r = vec![
        join_path_exec(a.as_str(), "skills"),
        join_path_exec(b.as_str(), "skills"),
        join_path_exec(cwd, "skills"),
        join_path_exec(config_dir, "skills"),
    ];
    proof {
        assert(views(r@) =~= spec_skill_dirs(cwd@, config_dir@));
    }
    r
}

/// The skill directories of a tool context.
pub fn skill_directories(ctx: &ToolContext, config_dir: &str) -> (r: Vec<String>)
    ensures
        views(r@) == spec_skill_dirs(ctx.cwd@, config_dir@),
{
    skill_dirs(ctx.cwd.as_str(), config_dir)
}

/// Whether a requested skill name could leave its directory.
pub open spec fn spec_invalid_skill_name(name: Seq<char>) -> bool {
    name.contains('/') || name.contains('\\') || find(name, ".."@) is Some
}

pub fn is_invalid_skill_name(name: &str) -> (r: bool)
    ensures
        r == spec_invalid_skill_name(name@),
{
    contains_char(name, '/') || contains_char(name, '\\') || contains_str(name, "..")
}

pub fn builtin_skills() -> (r: Vec<SkillEntry>)
    ensures
        r.len() == 2,
        r@[0].name@ == "create-agent"@,
        r@[0].description@ == "Create or modify an agent definition file (.openrust/agents/*.md)"@,
        r@[0].path@ == "builtin/create-agent"@,
        r@[1].name@ == "create-skills"@,
        r@[1].description@ == "Create or modify a skill definition file (.openrust/skills/*/SKILL.md)"@,
        r@[1].path@ == "builtin/create-skills"@,
{
    vec![
        SkillEntry {
            name: String::from_str("create-agent"),
            description: String::from_str("Create or modify an agent definition file (.openrust/agents/*.md)"),
            path: String::from_str("builtin/create-agent"),
        },
        SkillEntry {
            name: String::from_str("create-skills"),
            description: String::from_str("Create or modify a skill definition file (.openrust/skills/*/SKILL.md)"),
            path: String::from_str("builtin/create-skills"),
        },
    ]
}

pub open spec fn spec_builtin_skill_body(name: Seq<char>) -> Option<Seq<char>> {
    if name == "create-agent"@ {
        Some(r#"# create-agent

Use this skill when creating or modifying agent definition files.

## File locations

- Project agent: `.openrust/agents/<name>.md`
- Global agent: `~/.config/openrust/agents/<name>.md`

Project agents override global agents with the same name. Both override built-in agents (build, plan, general, explore, compaction, title, summary).

## File format

```
---
title: Display Name
description: One-line description for the agent picker
mode: primary
steps: 50
hidden: false
---

Agent system prompt text here.
```

## Frontmatter fields

| Field | Required | Default | Description |
|-------|----------|---------|-------------|
| `title` | no | First `#` heading in body | Display name in agent picker |
| `description` | no | First paragraph in body | Short description in picker |
| `mode` | no | `primary` | Tool availability (see below) |
| `steps` | no | `50` | Max tool-loop iterations per turn |
| `hidden` | no | `false` | Hide from agent picker |

## Mode values

| Mode | Tools available |
|------|----------------|
| `primary` | All tools (default) |
| `plan` | Read-only: no write, edit, rm, apply_patch, bash, undo_edit |
| `explore` | Same as plan (read-only) |
| `subagent` | All tools except task, question (when spawned as subagent) |

## Workflow

1. Ask what the agent should do and whether it should be project-level or global.
2. Determine the appropriate `mode` based on whether the agent needs write access.
3. Determine `steps` based on task complexity (simple: 10-25, complex: 50-200).
4. Write the file with valid frontmatter and a clear system prompt body.
5. The agent ID = filename without `.md` (case-sensitive). No subdirectories.

## Body format

The body is appended after the base system prompt, which already includes environment info (cwd, platform, model), tool list, project rules, and AGENTS.md. Write **only** what is unique about this agent.

**Simple agent** — one-line role statement:
```
You are a general-purpose agent for researching complex questions and executing multi-step tasks.
```

**Guided agent** — role + behavioral guidelines:
```
You are a planning agent. Help the user organize work into clear steps.

Guidelines:
- Keep the plan concise and actionable
- Identify dependencies and unknowns
- Do not write code unless the user explicitly asks
```

**Structured agent** — role + XML sections (for fixed-output tasks like title generation):
```
You are a title generator. Output ONLY a title.

<rules>
- Use the same language as the user message
- <= 50 characters
- No explanations
</rules>
```

Do NOT repeat in the body: environment info, tool capabilities, project instructions. These are already injected.

## Overlay semantics

When overriding a built-in agent (e.g. creating `.openrust/agents/build.md`):
- Frontmatter fields you specify override the built-in values.
- Frontmatter fields you omit are inherited from the built-in.
- The markdown body replaces the built-in system prompt (if non-empty).
"#@)
    } else if name == "create-skills"@ {
        Some(r#"# create-skills

Use this skill when creating or modifying skill definition files.

## Directory structure

- Project skill: `.openrust/skills/<skill-name>/SKILL.md`
- Global skill: `~/.config/openrust/skills/<skill-name>/SKILL.md`

Project skills override global skills with the same name.

## File format

```
---
description: One-line description shown in system prompt
---

Skill body text. This content is returned when the skill tool
is invoked with the skill name.
```

## Frontmatter fields

| Field | Required | Description |
|-------|----------|-------------|
| `description` | yes | Shown in the system prompt capabilities section so the LLM knows when to use this skill |

## Rules

1. Skill name = directory name (case-sensitive). The file MUST be named `SKILL.md`.
2. Each skill lives in its own subdirectory: `<skill-name>/SKILL.md`.
3. The `description` frontmatter field is required.
4. The body (after frontmatter) is the skill's instruction content — write clear, actionable steps.
5. When modifying an existing skill, preserve the description unless the user asks to change it.

## Body format

The body is injected into the conversation when the skill tool is invoked. It should be self-contained instructions the LLM can follow immediately.

**Good skill body** — concrete, scoped, actionable:
```
# deploy-checklist

Run through this checklist before deploying:

1. Run `npm run typecheck` — fix any errors.
2. Run `npm test` — all tests must pass.
3. Check `git status` for uncommitted changes.
4. Verify the build: `npm run build`.

If any step fails, stop and report the error. Do not attempt to fix it.
```

**Bad skill body** — vague, no actions:
```
This skill helps with deployment. Make sure everything is ready before you deploy.
```

Principles:
- Start with a `#` heading naming the skill.
- Use numbered steps for sequential workflows.
- Specify exact commands when possible.
- State what to do on failure (stop, report, retry?).
- Keep it under ~50 lines. If longer, split into multiple skills.

## Workflow

1. Ask what the skill should do and whether it should be project-level or global.
2. Create the directory: `mkdir -p .openrust/skills/<skill-name>` (or global equivalent).
3. Write the `SKILL.md` file with frontmatter and body.
4. The skill name should be lowercase-hyphenated (e.g. `deploy-checklist`, `code-review`).
"#@)
    } else {
        None
    }
}

pub fn builtin_skill_body(name: &str) -> (r: Option<&'static str>)
    ensures
        match r {
            Some(b) => spec_builtin_skill_body(name@) == Some(b@),
            None => spec_builtin_skill_body(name@) is None,
        },
{
    if str_eq(name, "create-agent") {
        Some(r#"# create-agent

Use this skill when creating or modifying agent definition files.

## File locations

- Project agent: `.openrust/agents/<name>.md`
- Global agent: `~/.config/openrust/agents/<name>.md`

Project agents override global agents with the same name. Both override built-in agents (build, plan, general, explore, compaction, title, summary).

## File format

```
---
title: Display Name
description: One-line description for the agent picker
mode: primary
steps: 50
hidden: false
---

Agent system prompt text here.
```

## Frontmatter fields

| Field | Required | Default | Description |
|-------|----------|---------|-------------|
| `title` | no | First `#` heading in body | Display name in agent picker |
| `description` | no | First paragraph in body | Short description in picker |
| `mode` | no | `primary` | Tool availability (see below) |
| `steps` | no | `50` | Max tool-loop iterations per turn |
| `hidden` | no | `false` | Hide from agent picker |

## Mode values

| Mode | Tools available |
|------|----------------|
| `primary` | All tools (default) |
| `plan` | Read-only: no write, edit, rm, apply_patch, bash, undo_edit |
| `explore` | Same as plan (read-only) |
| `subagent` | All tools except task, question (when spawned as subagent) |

## Workflow

1. Ask what the agent should do and whether it should be project-level or global.
2. Determine the appropriate `mode` based on whether the agent needs write access.
3. Determine `steps` based on task complexity (simple: 10-25, complex: 50-200).
4. Write the file with valid frontmatter and a clear system prompt body.
5. The agent ID = filename without `.md` (case-sensitive). No subdirectories.

## Body format

The body is appended after the base system prompt, which already includes environment info (cwd, platform, model), tool list, project rules, and AGENTS.md. Write **only** what is unique about this agent.

**Simple agent** — one-line role statement:
```
You are a general-purpose agent for researching complex questions and executing multi-step tasks.
```

**Guided agent** — role + behavioral guidelines:
```
You are a planning agent. Help the user organize work into clear steps.

Guidelines:
- Keep the plan concise and actionable
- Identify dependencies and unknowns
- Do not write code unless the user explicitly asks
```

**Structured agent** — role + XML sections (for fixed-output tasks like title generation):
```
You are a title generator. Output ONLY a title.

<rules>
- Use the same language as the user message
- <= 50 characters
- No explanations
</rules>
```

Do NOT repeat in the body: environment info, tool capabilities, project instructions. These are already injected.

## Overlay semantics

When overriding a built-in agent (e.g. creating `.openrust/agents/build.md`):
- Frontmatter fields you specify override the built-in values.
- Frontmatter fields you omit are inherited from the built-in.
- The markdown body replaces the built-in system prompt (if non-empty).
"#)
    } else if str_eq(name, "create-skills") {
        Some(r#"# create-skills

Use this skill when creating or modifying skill definition files.

## Directory structure

- Project skill: `.openrust/skills/<skill-name>/SKILL.md`
- Global skill: `~/.config/openrust/skills/<skill-name>/SKILL.md`

Project skills override global skills with the same name.

## File format

```
---
description: One-line description shown in system prompt
---

Skill body text. This content is returned when the skill tool
is invoked with the skill name.
```

## Frontmatter fields

| Field | Required | Description |
|-------|----------|-------------|
| `description` | yes | Shown in the system prompt capabilities section so the LLM knows when to use this skill |

## Rules

1. Skill name = directory name (case-sensitive). The file MUST be named `SKILL.md`.
2. Each skill lives in its own subdirectory: `<skill-name>/SKILL.md`.
3. The `description` frontmatter field is required.
4. The body (after frontmatter) is the skill's instruction content — write clear, actionable steps.
5. When modifying an existing skill, preserve the description unless the user asks to change it.

## Body format

The body is injected into the conversation when the skill tool is invoked. It should be self-contained instructions the LLM can follow immediately.

**Good skill body** — concrete, scoped, actionable:
```
# deploy-checklist

Run through this checklist before deploying:

1. Run `npm run typecheck` — fix any errors.
2. Run `npm test` — all tests must pass.
3. Check `git status` for uncommitted changes.
4. Verify the build: `npm run build`.

If any step fails, stop and report the error. Do not attempt to fix it.
```

**Bad skill body** — vague, no actions:
```
This skill helps with deployment. Make sure everything is ready before you deploy.
```

Principles:
- Start with a `#` heading naming the skill.
- Use numbered steps for sequential workflows.
- Specify exact commands when possible.
- State what to do on failure (stop, report, retry?).
- Keep it under ~50 lines. If longer, split into multiple skills.

## Workflow

1. Ask what the skill should do and whether it should be project-level or global.
2. Create the directory: `mkdir -p .openrust/skills/<skill-name>` (or global equivalent).
3. Write the `SKILL.md` file with frontmatter and body.
4. The skill name should be lowercase-hyphenated (e.g. `deploy-checklist`, `code-review`).
"#)
    } else {
        None
    }
}

// ── Frontmatter ────────────────────────────────────

/// The text after an opening `---` line.
pub open spec fn fm_rest(content: Seq<char>) -> Option<Seq<char>> {
    match strip_prefix(content, "---\n"@) {
        Some(r) => Some(r),
        None => strip_prefix(content, "---\r\n"@),
    }
}

/// Where the closing `---` line starts (at its leading line break).
pub open spec fn fm_end(rest: Seq<char>) -> Option<int> {
    match find(rest, "\n---\n"@) {
        Some(o) => Some(o),
        None => find(rest, "\r\n---\r\n"@),
    }
}

/// The complaint about a frontmatter line that is neither blank, a comment,
/// a `key: value` pair nor a list item.
pub open spec fn fm_line_error(line: Seq<char>) -> Option<Seq<char>> {
    let t = trim(line);
    if t.len() == 0 || starts_with(t, "#"@) {
        None
    } else if !t.contains(':') && !starts_with(t, "-"@) {
        Some("invalid YAML line: '"@ + t + "'"@)
    } else {
        None
    }
}

/// Complaints about the lines of a frontmatter block, in order.
pub open spec fn fm_errors(ls: Seq<Seq<char>>) -> Seq<Seq<char>>
    decreases ls.len(),
{
    if ls.len() == 0 {
        seq![]
    } else {
        match fm_line_error(ls.last()) {
            Some(e) => fm_errors(ls.drop_last()).push(e),
            None => fm_errors(ls.drop_last()),
        }
    }
}

/// The body of a SKILL.md without its frontmatter, and the frontmatter
/// problems found (empty when none).
pub open spec fn spec_parse_frontmatter(content: Seq<char>) -> (Seq<char>, Seq<char>) {
    match fm_rest(content) {
        None => (content, seq![]),
        Some(rest) => match fm_end(rest) {
            None => (content, "missing closing '---' delimiter"@),
            Some(e) => {
                let start = if has_at(rest, e, "\n---\n"@) {
                    e + "\n---\n"@.len()
                } else {
                    e + "\r\n---\r\n"@.len()
                };
                (
                    trim_start_newlines(rest.subrange(start, rest.len() as int)),
                    join(fm_errors(lines(rest.subrange(0, e))), "; "@),
                )
            },
        },
    }
}

/// The value of the first `description:` line, trimmed and unquoted.
pub open spec fn desc_from(ls: Seq<Seq<char>>, i: int) -> Seq<char>
    decreases ls.len() - i,
{
    if i < 0 || i >= ls.len() {
        seq![]
    } else {
        match strip_prefix(trim(ls[i]), "description:"@) {
            Some(v) => trim_matches(trim_matches(trim(v), '"'), '\''),
            None => desc_from(ls, i + 1),
        }
    }
}

/// The `description` field of a SKILL.md's frontmatter (empty when absent).
pub open spec fn spec_extract_description(content: Seq<char>) -> Seq<char> {
    match fm_rest(content) {
        None => seq![],
        Some(rest) => match fm_end(rest) {
            None => seq![],
            Some(e) => desc_from(lines(rest.subrange(0, e)), 0),
        },
    }
}

fn fm_rest_exec(content: &str) -> (r: Option<Vec<char>>)
    ensures
        match r {
            Some(v) => fm_rest(content@) == Some(v@),
            None => fm_rest(content@) is None,
        },
{
    match strip_prefix_str(content, "---\n") {
        Some(r) => Some(chars_of(r.as_str())),
        None => match strip_prefix_str(content, "---\r\n") {
            Some(r) => Some(chars_of(r.as_str())),
            None => None,
        },
    }
}

fn fm_end_exec(rest: &Vec<char>) -> (r: Option<usize>)
    ensures
        match r {
            Some(e) => fm_end(rest@) == Some(e as int) && e <= rest.len(),
            None => fm_end(rest@) is None,
        },
{
    match find_exec(rest, "\n---\n", 0) {
        Some(o) => Some(o),
        None => find_exec(rest, "\r\n---\r\n", 0),
    }
}

fn fm_line_error_exec(line: &str) -> (r: Option<String>)
    ensures
        match r {
            Some(e) => fm_line_error(line@) == Some(e@),
            None => fm_line_error(line@) is None,
        },
{
    let t = trim_str(line);
    if t.unicode_len() == 0 || starts_with_str(t.as_str(), "#") {
        return None;
    }
    if !contains_char(t.as_str(), ':') && !starts_with_str(t.as_str(), "-") {
        let mut e = String::from_str("invalid YAML line: '");
        e.append(t.as_str());
        e.append("'");
        return Some(e);
    }
    None
}

fn trim_start_newlines_exec(v: &Vec<char>, from: usize) -> (r: String)
    requires
        from <= v.len(),
    ensures
        r@ == trim_start_newlines(v@.subrange(from as int, v.len() as int)),
{
    let mut i = from;
    while i < v.len() && (v[i] == '\r' || v[i] == '\n')
        invariant
            from <= i <= v.len(),
            trim_start_newlines(v@.subrange(from as int, v.len() as int)) == trim_start_newlines(
                v@.subrange(i as int, v.len() as int),
            ),
        decreases v.len() - i,
    {
        proof {
            assert(v@.subrange(i as int, v.len() as int).drop_first() =~= v@.subrange(
                i + 1,
                v.len() as int,
            ));
        }
        i += 1;
    }
    string_of_range(v, i, v.len())
}

/// Parse and strip a leading `---` YAML frontmatter block.
/// Returns `(body, frontmatter_errors)`.
pub fn parse_frontmatter(content: &str) -> (r: (String, String))
    ensures
        (r.0@, r.1@) == spec_parse_frontmatter(content@),
{
    let rest = match fm_rest_exec(content) {
        Some(r) => r,
        None => {
            return (String::from_str(content), String::new());
        },
    };
    let end = match fm_end_exec(&rest) {
        Some(e) => e,
        None => {
            return (String::from_str(content), String::from_str("missing closing '---' delimiter"));
        },
    };
    let fm = string_of_range(&rest, 0, end);
    let fm_lines = lines_of(fm.as_str());
    let mut errors: Vec<String> = Vec::new();
    let mut i: usize = 0;
    while i < fm_lines.len()
        invariant
            i <= fm_lines.len(),
            views(errors@) =~= fm_errors(views(fm_lines@).take(i as int)),
        decreases fm_lines.len() - i,
    {
        proof {
            assert(views(fm_lines@).take(i + 1).drop_last() =~= views(fm_lines@).take(i as int));
            assert(views(fm_lines@).take(i + 1).last() == fm_lines@[i as int]@);
        }
        match fm_line_error_exec(fm_lines[i].as_str()) {
            Some(e) => {
                let ghost e0 = views(errors@);
                errors.push(e);
                proof {
                    assert(views(errors@) =~= e0.push(e@));
                }
            },
            None => {},
        }
        i += 1;
    }
    proof {
        assert(views(fm_lines@).take(fm_lines.len() as int) =~= views(fm_lines@));
    }
    let start = if has_at_exec(&rest, end, "\n---\n") {
        end + "\n---\n".unicode_len()
    } else {
        let k = "\r\n---\r\n".unicode_len();
        proof {
            crate::text::lemma_find_from(rest@, "\n---\n"@, 0);
            crate::text::lemma_find_from(rest@, "\r\n---\r\n"@, 0);
        }
        end + k
    };
    let body = trim_start_newlines_exec(&rest, start);
    (body, join_str(&errors, "; "))
}

/// Extract the `description` field from a SKILL.md's frontmatter.
pub fn extract_description(content: &str) -> (r: String)
    ensures
        r@ == spec_extract_description(content@),
{
    let rest = match fm_rest_exec(content) {
        Some(r) => r,
        None => {
            return String::new();
        },
    };
    let end = match fm_end_exec(&rest) {
        Some(e) => e,
        None => {
            return String::new();
        },
    };
    let fm = string_of_range(&rest, 0, end);
    let ls = lines_of(fm.as_str());
    let ghost lv = views(ls@);
    let mut i: usize = 0;
    while i < ls.len()
        invariant
            lv == views(ls@),
            lv.len() == ls.len(),
            i <= ls.len(),
            spec_extract_description(content@) == desc_from(lv, 0),
            desc_from(lv, 0) == desc_from(lv, i as int),
        decreases ls.len() - i,
    {
        assert(lv[i as int] == ls@[i as int]@);
        let t = trim_str(ls[i].as_str());
        match strip_prefix_str(t.as_str(), "description:") {
            Some(value) => {
                let a = trim_str(value.as_str());
                let b = trim_matches_str(a.as_str(), '"');
                return trim_matches_str(b.as_str(), '\'');
            },
            None => {},
        }
        i += 1;
    }
    String::new()
}


/// A skill by its view: name, description and path.
pub open spec fn skill_view(e: SkillEntry) -> (Seq<char>, Seq<char>, Seq<char>) {
    (e.name@, e.description@, e.path@)
}

pub open spec fn skills_view(v: Seq<SkillEntry>) -> Seq<(Seq<char>, Seq<char>, Seq<char>)> {
    v.map_values(|e: SkillEntry| skill_view(e))
}

/// `e` put into a list kept in name order: it replaces the entry of the
/// same name, or goes where its name belongs.
pub open spec fn upsert(s: Seq<(Seq<char>, Seq<char>, Seq<char>)>, e: (Seq<char>, Seq<char>, Seq<char>)) -> Seq<(Seq<char>, Seq<char>, Seq<char>)>
    decreases s.len(),
{
    if s.len() == 0 {
        seq![e]
    } else if s.last().0 == e.0 {
        s.drop_last().push(e)
    } else if seq_le(s.last().0, e.0) {
        s.push(e)
    } else {
        upsert(s.drop_last(), e).push(s.last())
    }
}

/// Skills in name order, a later skill replacing an earlier one of the
/// same name.
pub open spec fn merge_skills(s: Seq<(Seq<char>, Seq<char>, Seq<char>)>) -> Seq<(Seq<char>, Seq<char>, Seq<char>)>
    decreases s.len(),
{
    if s.len() == 0 {
        seq![]
    } else {
        upsert(merge_skills(s.drop_last()), s.last())
    }
}

/// The skills found, lowest priority first: the built-in ones, then the
/// listings of the skill directories from the last (global) to the first
/// (the project's).
pub open spec fn skill_layers(listings: Seq<Seq<SkillEntry>>) -> Seq<(Seq<char>, Seq<char>, Seq<char>)>
    decreases listings.len(),
{
    if listings.len() == 0 {
        seq![
            ("create-agent"@, "Create or modify an agent definition file (.openrust/agents/*.md)"@, "builtin/create-agent"@),
            ("create-skills"@, "Create or modify a skill definition file (.openrust/skills/*/SKILL.md)"@, "builtin/create-skills"@),
        ]
    } else {
        skill_layers(listings.drop_first()) + skills_view(listings[0])
    }
}

proof fn lemma_upsert_at(s: Seq<(Seq<char>, Seq<char>, Seq<char>)>, e: (Seq<char>, Seq<char>, Seq<char>), j: int)
    requires
        0 <= j <= s.len(),
        forall|k: int| j <= k < s.len() ==> !seq_le(#[trigger] s[k].0, e.0),
        j > 0 ==> seq_le(s[j - 1].0, e.0),
    ensures
        upsert(s, e) == (if j > 0 && s[j - 1].0 == e.0 {
            s.take(j - 1).push(e) + s.skip(j)
        } else {
            s.take(j).push(e) + s.skip(j)
        }),
    decreases s.len() - j,
{
    lemma_code_order_total();
    if j == s.len() {
        if j == 0 {
            assert(s.take(0).push(e) + s.skip(0) =~= seq![e]);
        } else if s.last().0 == e.0 {
            assert(s.take(j - 1).push(e) + s.skip(j) =~= s.drop_last().push(e));
        } else {
            assert(s.take(j).push(e) + s.skip(j) =~= s.push(e));
        }
    } else {
        let d = s.drop_last();
        assert(!seq_le(s[s.len() - 1].0, e.0));
        assert(s.last().0 != e.0) by {
            assert(code_le()(e.0, e.0));
        }
        assert forall|k: int| j <= k < d.len() implies !seq_le(#[trigger] d[k].0, e.0) by {
            assert(d[k] == s[k]);
        }
        lemma_upsert_at(d, e, j);
        if j > 0 && s[j - 1].0 == e.0 {
            assert(d.take(j - 1).push(e) + d.skip(j) + seq![s.last()] =~= s.take(j - 1).push(e) + s.skip(j));
        } else {
            assert(d.take(j).push(e) + d.skip(j) + seq![s.last()] =~= s.take(j).push(e) + s.skip(j));
        }
    }
}

fn upsert_exec(out: &mut Vec<SkillEntry>, e: SkillEntry)
    ensures
        skills_view(final(out)@) == upsert(skills_view(old(out)@), skill_view(e)),
{
    let ghost s = skills_view(out@);
    let ghost ev = skill_view(e);
    let mut j = out.len();
    while j > 0 && !str_le(out[j - 1].name.as_str(), e.name.as_str())
        invariant
            s == skills_view(out@),
            ev == skill_view(e),
            j <= out.len(),
            forall|k: int| j <= k < s.len() ==> !seq_le(#[trigger] s[k].0, ev.0),
        decreases j,
    {
        j -= 1;
    }
    proof {
        lemma_upsert_at(s, ev, j as int);
    }
    if j > 0 && str_eq(out[j - 1].name.as_str(), e.name.as_str()) {
        out.set(j - 1, e);
        proof {
            assert(skills_view(out@) =~= s.take(j - 1).push(ev) + s.skip(j as int));
        }
    } else {
        out.insert(j, e);
        proof {
            assert(skills_view(out@) =~= s.take(j as int).push(ev) + s.skip(j as int));
        }
    }
}

/// All skills, in name order, each name once (see `merge_skills`): the
/// built-in skills overridden by those found in the skill directories,
/// whose listings are given in `skill_dirs` order, the project's first.
pub fn list_skills(listings: Vec<Vec<SkillEntry>>) -> (r: Vec<SkillEntry>)
    ensures
        skills_view(r@) == merge_skills(skill_layers(listings@.map_values(|l: Vec<SkillEntry>| l@))),
{
    let ghost ls = listings@.map_values(|l: Vec<SkillEntry>| l@);
    let mut all: Vec<SkillEntry> = builtin_skills();
    proof {
        assert(skills_view(all@) =~= skill_layers(ls.skip(ls.len() as int)));
    }
    let mut listings = listings;
    let mut i = listings.len();
    while i > 0
        invariant
            i <= listings.len(),
            ls == listings@.map_values(|l: Vec<SkillEntry>| l@),
            skills_view(all@) == skill_layers(ls.skip(i as int)),
        decreases i,
    {
        let layer = &listings[i - 1];
        let ghost before = skills_view(all@);
        let mut k: usize = 0;
        while k < layer.len()
            invariant
                k <= layer.len(),
                skills_view(all@) == before + skills_view(layer@.take(k as int)),
            decreases layer.len() - k,
        {
            let e = SkillEntry {
                name: layer[k].name.clone(),
                description: layer[k].description.clone(),
                path: layer[k].path.clone(),
            };
            let ghost pre = skills_view(all@);
            all.push(e);
            proof {
                assert(skills_view(all@) =~= pre.push(skill_view(e)));
                assert(skills_view(layer@.take(k + 1)) =~= skills_view(layer@.take(k as int)).push(skill_view(layer@[k as int])));
            }
            k += 1;
        }
        proof {
            assert(layer@.take(layer.len() as int) =~= layer@);
            assert(ls.skip(i - 1).drop_first() =~= ls.skip(i as int));
            assert(ls.skip(i - 1)[0] == layer@);
        }
        i -= 1;
    }
    proof {
        assert(ls.skip(0) =~= ls);
    }
    let ghost flat = skills_view(all@);
    let mut out: Vec<SkillEntry> = Vec::new();
    let mut n: usize = 0;
    proof {
        assert(skills_view(out@) =~= merge_skills(flat.take(0)));
    }
    while n < all.len()
        invariant
            flat == skills_view(all@),
            n <= all.len(),
            skills_view(out@) == merge_skills(flat.take(n as int)),
        decreases all.len() - n,
    {
        let e = SkillEntry {
            name: all[n].name.clone(),
            description: all[n].description.clone(),
            path: all[n].path.clone(),
        };
        upsert_exec(&mut out, e);
        proof {
            assert(flat.take(n + 1).drop_last() =~= flat.take(n as int));
            assert(flat.take(n + 1).last() == skill_view(e));
        }
        n += 1;
    }
    proof {
        assert(flat.take(all.len() as int) =~= flat);
    }
    out
}

/// The names of all skills, in order (see `list_skills`).
pub fn list_skill_names(listings: Vec<Vec<SkillEntry>>) -> (r: Vec<String>)
    ensures
        views(r@) == merge_skills(skill_layers(listings@.map_values(|l: Vec<SkillEntry>| l@))).map_values(
            |e: (Seq<char>, Seq<char>, Seq<char>)| e.0,
        ),
{
    let all = list_skills(listings);
    let ghost av = skills_view(all@);
    let mut out: Vec<String> = Vec::new();
    let mut i: usize = 0;
    while i < all.len()
        invariant
            av == skills_view(all@),
            i <= all.len(),
            views(out@) =~= av.map_values(|e: (Seq<char>, Seq<char>, Seq<char>)| e.0).take(i as int),
        decreases all.len() - i,
    {
        let ghost before = views(out@);
        let nm = all[i].name.clone();
        out.push(nm);
        proof {
            assert(views(out@) =~= before.push(nm@));
            assert(av[i as int] == skill_view(all@[i as int]));
        }
        i += 1;
    }
    proof {
        assert(av.map_values(|e: (Seq<char>, Seq<char>, Seq<char>)| e.0).take(all.len() as int)
            =~= av.map_values(|e: (Seq<char>, Seq<char>, Seq<char>)| e.0));
    }
    out
}


/// Whether names strictly increase along a list.
pub open spec fn strictly_sorted(s: Seq<(Seq<char>, Seq<char>, Seq<char>)>) -> bool {
    forall|a: int, b: int| 0 <= a < b < s.len() ==> seq_le(#[trigger] s[a].0, #[trigger] s[b].0) && s[a].0 != s[b].0
}

/// Whether no entry after the `k`-th has its name.
pub open spec fn is_last_of_name(s: Seq<(Seq<char>, Seq<char>, Seq<char>)>, k: int) -> bool {
    forall|k2: int| k < k2 < s.len() ==> (#[trigger] s[k2]).0 != s[k].0
}

proof fn lemma_upsert(t: Seq<(Seq<char>, Seq<char>, Seq<char>)>, e: (Seq<char>, Seq<char>, Seq<char>))
    requires
        strictly_sorted(t),
    ensures
        strictly_sorted(upsert(t, e)),
        upsert(t, e).contains(e),
        forall|x: (Seq<char>, Seq<char>, Seq<char>)| #[trigger] upsert(t, e).contains(x) ==> x == e || (t.contains(x) && x.0 != e.0),
        forall|x: (Seq<char>, Seq<char>, Seq<char>)| #[trigger] t.contains(x) && x.0 != e.0 ==> upsert(t, e).contains(x),
    decreases t.len(),
{
    lemma_code_order_total();
    let r = upsert(t, e);
    if t.len() == 0 {
        assert(r[0] == e);
    } else if t.last().0 == e.0 {
        let d = t.drop_last();
        assert(r =~= d.push(e));
        assert(r[d.len() as int] == e);
        assert forall|a: int, b: int| 0 <= a < b < r.len() implies seq_le(#[trigger] r[a].0, #[trigger] r[b].0) && r[a].0 != r[b].0 by {
            assert(r[a] == t[a]);
            if b < d.len() {
                assert(r[b] == t[b]);
            } else {
                assert(r[b].0 == t[t.len() - 1].0);
            }
        }
        assert forall|x: (Seq<char>, Seq<char>, Seq<char>)| #[trigger] r.contains(x) implies x == e || (t.contains(x) && x.0 != e.0) by {
            let j = choose|j: int| 0 <= j < r.len() && r[j] == x;
            if j < d.len() {
                assert(t[j] == x);
                assert(x.0 != t[t.len() - 1].0);
            }
        }
        assert forall|x: (Seq<char>, Seq<char>, Seq<char>)| #[trigger] t.contains(x) && x.0 != e.0 implies r.contains(x) by {
            let j = choose|j: int| 0 <= j < t.len() && t[j] == x;
            assert(j < d.len());
            assert(r[j] == x);
        }
    } else if seq_le(t.last().0, e.0) {
        assert(r =~= t.push(e));
        assert(r[t.len() as int] == e);
        assert forall|a: int, b: int| 0 <= a < b < r.len() implies seq_le(#[trigger] r[a].0, #[trigger] r[b].0) && r[a].0 != r[b].0 by {
            assert(r[a] == t[a]);
            if b < t.len() {
                assert(r[b] == t[b]);
            } else {
                let l = t.len() - 1;
                if a < l {
                    assert(seq_le(t[a].0, t[l].0) && t[a].0 != t[l].0);
                    assert(code_le()(t[a].0, t[l].0) && code_le()(t[l].0, e.0));
                    if t[a].0 == e.0 {
                        assert(code_le()(e.0, t[l].0));
                    }
                }
            }
        }
        assert forall|x: (Seq<char>, Seq<char>, Seq<char>)| #[trigger] r.contains(x) implies x == e || (t.contains(x) && x.0 != e.0) by {
            let j = choose|j: int| 0 <= j < r.len() && r[j] == x;
            if j < t.len() {
                assert(t[j] == x);
                let l = t.len() - 1;
                if j < l && x.0 == e.0 {
                    assert(seq_le(t[j].0, t[l].0) && t[j].0 != t[l].0);
                    assert(code_le()(e.0, t[l].0) && code_le()(t[l].0, e.0));
                }
            }
        }
        assert forall|x: (Seq<char>, Seq<char>, Seq<char>)| #[trigger] t.contains(x) && x.0 != e.0 implies r.contains(x) by {
            let j = choose|j: int| 0 <= j < t.len() && t[j] == x;
            assert(r[j] == x);
        }
    } else {
        let d = t.drop_last();
        let l = t.last();
        assert(strictly_sorted(d)) by {
            assert forall|a: int, b: int| 0 <= a < b < d.len() implies seq_le(#[trigger] d[a].0, #[trigger] d[b].0) && d[a].0 != d[b].0 by {
                assert(d[a] == t[a] && d[b] == t[b]);
            }
        }
        lemma_upsert(d, e);
        let u = upsert(d, e);
        assert(r =~= u.push(l));
        assert(code_le()(e.0, l.0)) by {
            assert(!code_le()(l.0, e.0));
        }
        assert forall|x: (Seq<char>, Seq<char>, Seq<char>)| #[trigger] u.contains(x) implies seq_le(x.0, l.0) && x.0 != l.0 by {
            if x == e {
                if e.0 == l.0 {
                    assert(code_le()(l.0, e.0));
                }
            } else {
                assert(d.contains(x));
                let j = choose|j: int| 0 <= j < d.len() && d[j] == x;
                assert(t[j] == x);
                assert(seq_le(t[j].0, t[t.len() - 1].0) && t[j].0 != t[t.len() - 1].0);
            }
        }
        assert forall|a: int, b: int| 0 <= a < b < r.len() implies seq_le(#[trigger] r[a].0, #[trigger] r[b].0) && r[a].0 != r[b].0 by {
            assert(r[a] == u[a]);
            assert(u.contains(u[a]));
            if b < u.len() {
                assert(r[b] == u[b]);
            } else {
                assert(r[b] == l);
            }
        }
        assert(r.contains(e)) by {
            let j = choose|j: int| 0 <= j < u.len() && u[j] == e;
            assert(r[j] == e);
        }
        assert forall|x: (Seq<char>, Seq<char>, Seq<char>)| #[trigger] r.contains(x) implies x == e || (t.contains(x) && x.0 != e.0) by {
            let j = choose|j: int| 0 <= j < r.len() && r[j] == x;
            if j < u.len() {
                assert(u[j] == x);
                assert(u.contains(x));
                if x != e {
                    let i = choose|i: int| 0 <= i < d.len() && d[i] == x;
                    assert(t[i] == x);
                }
            } else {
                assert(x == l);
                assert(t[t.len() - 1] == x);
                if x.0 == e.0 {
                    assert(code_le()(e.0, e.0));
                }
            }
        }
        assert forall|x: (Seq<char>, Seq<char>, Seq<char>)| #[trigger] t.contains(x) && x.0 != e.0 implies r.contains(x) by {
            let j = choose|j: int| 0 <= j < t.len() && t[j] == x;
            if j < d.len() {
                assert(d[j] == x);
                assert(d.contains(x));
                let i = choose|i: int| 0 <= i < u.len() && u[i] == x;
                assert(r[i] == x);
            } else {
                assert(r[u.len() as int] == x);
            }
        }
    }
}

/// The merged list is in strictly increasing name order, and it holds
/// exactly the entries that no later entry of the same name overrides.
pub proof fn lemma_merge_skills(s: Seq<(Seq<char>, Seq<char>, Seq<char>)>)
    ensures
        strictly_sorted(merge_skills(s)),
        forall|x: (Seq<char>, Seq<char>, Seq<char>)| #[trigger] merge_skills(s).contains(x) <==> exists|k: int| 0 <= k < s.len() && s[k] == x && #[trigger] is_last_of_name(s, k),
    decreases s.len(),
{
    if s.len() > 0 {
        let p = s.drop_last();
        let e = s.last();
        lemma_merge_skills(p);
        lemma_upsert(merge_skills(p), e);
        let r = merge_skills(s);
        assert(r == upsert(merge_skills(p), e));
        assert forall|x: (Seq<char>, Seq<char>, Seq<char>)| #[trigger] r.contains(x) implies exists|k: int| 0 <= k < s.len() && s[k] == x && #[trigger] is_last_of_name(s, k) by {
            if x == e {
                assert(is_last_of_name(s, s.len() - 1));
            } else {
                assert(merge_skills(p).contains(x) && x.0 != e.0);
                let k = choose|k: int| 0 <= k < p.len() && p[k] == x && #[trigger] is_last_of_name(p, k);
                assert(s[k] == x);
                assert forall|k2: int| k < k2 < s.len() implies (#[trigger] s[k2]).0 != s[k].0 by {
                    if k2 < p.len() {
                        assert(s[k2] == p[k2]);
                    }
                }
                assert(is_last_of_name(s, k));
            }
        }
        assert forall|x: (Seq<char>, Seq<char>, Seq<char>)| (exists|k: int| 0 <= k < s.len() && s[k] == x && #[trigger] is_last_of_name(s, k)) implies #[trigger] r.contains(x) by {
            let k = choose|k: int| 0 <= k < s.len() && s[k] == x && #[trigger] is_last_of_name(s, k);
            if k == s.len() - 1 {
                assert(x == e);
            } else {
                assert(p[k] == x);
                assert(s[s.len() - 1].0 != s[k].0);
                assert(x.0 != e.0);
                assert(is_last_of_name(p, k)) by {
                    assert forall|k2: int| k < k2 < p.len() implies (#[trigger] p[k2]).0 != p[k].0 by {
                        assert(p[k2] == s[k2]);
                    }
                }
                assert(merge_skills(p).contains(x));
            }
        }
    }
}


proof fn lemma_last_of_name_exists(s: Seq<(Seq<char>, Seq<char>, Seq<char>)>, k: int)
    requires
        0 <= k < s.len(),
    ensures
        exists|j: int| k <= j < s.len() && s[j].0 == s[k].0 && #[trigger] is_last_of_name(s, j),
    decreases s.len() - k,
{
    if is_last_of_name(s, k) {
        assert(is_last_of_name(s, k));
    } else {
        let k2 = choose|k2: int| k < k2 < s.len() && (#[trigger] s[k2]).0 == s[k].0;
        lemma_last_of_name_exists(s, k2);
        let j = choose|j: int| k2 <= j < s.len() && s[j].0 == s[k2].0 && #[trigger] is_last_of_name(s, j);
        assert(k <= j < s.len() && s[j].0 == s[k].0 && is_last_of_name(s, j));
    }
}

proof fn lemma_layers_start_with_builtins(listings: Seq<Seq<SkillEntry>>)
    ensures
        skill_layers(listings).len() >= 2,
        skill_layers(listings)[0].0 == "create-agent"@,
        skill_layers(listings)[1].0 == "create-skills"@,
    decreases listings.len(),
{
    if listings.len() > 0 {
        lemma_layers_start_with_builtins(listings.drop_first());
    }
}

/// Whatever the skill directories hold, the merged list has a skill named
/// `create-agent` and one named `create-skills`: a skill found on disk may
/// replace a built-in one, but its name stays.
pub proof fn lemma_builtin_skills_listed(listings: Seq<Seq<SkillEntry>>)
    ensures
        exists|x: (Seq<char>, Seq<char>, Seq<char>)| #[trigger] merge_skills(skill_layers(listings)).contains(x)
            && x.0 == "create-agent"@,
        exists|x: (Seq<char>, Seq<char>, Seq<char>)| #[trigger] merge_skills(skill_layers(listings)).contains(x)
            && x.0 == "create-skills"@,
{
    let s = skill_layers(listings);
    lemma_layers_start_with_builtins(listings);
    lemma_merge_skills(s);
    lemma_last_of_name_exists(s, 0);
    let j0 = choose|j: int| 0 <= j < s.len() && s[j].0 == s[0].0 && #[trigger] is_last_of_name(s, j);
    assert(merge_skills(s).contains(s[j0]));
    lemma_last_of_name_exists(s, 1);
    let j1 = choose|j: int| 1 <= j < s.len() && s[j].0 == s[1].0 && #[trigger] is_last_of_name(s, j);
    assert(merge_skills(s).contains(s[j1]));
}

} // verus!
