# openrust_core

The verified core of a terminal coding agent: the logic of its tools
(reading, writing, editing and patching files, searching, running shell
commands, fetching and searching the web, skills, todos, undo snapshots),
the agent loop's decisions, and the terminal view's text handling
(Markdown parsing and rendering, syntax highlighting, HTML and LaTeX
rendering, tables, wrapping, the session panel's rows, the events of a
running prompt, compaction, dialogs, questions, themes, key routing and
popup placement). Every function in `src/` carries a contract that
Verus proves.

## Layout

- `src/` — the library, written in Verus. Calls into outside crates
  (`regex`, `glob`, `url`, `urlencoding`, `sha2`, `hex`, `base64`,
  `similar`, `unicode-width`, `pulldown-cmark`, `syntect`) go through small trusted wrappers whose
  contracts say what those crates document.
- `tests/` — tests of the library, run against the real outside crates.
- `app/` — the edges the library leaves out: file system and process
  access, HTTP requests, JSON parameters, results and schemas, and theme
  files.

Verify with Verus; the library builds as an ordinary Rust crate named
`openrust_core`.
