//! Shell selection and tool prompt text.

use vstd::prelude::*;
use crate::text::starts_with;

verus! {

#[derive(Debug, Clone, Copy, PartialEq, Eq, Structural)]
pub enum ShellKind {
    Bash,
    Pwsh,
    Powershell,
    Cmd,
}

/// The shell used on Windows: `pwsh` when on the PATH, else `powershell`
/// when on the PATH, else `cmd`.
pub open spec fn spec_windows_shell(pwsh_on_path: bool, powershell_on_path: bool) -> ShellKind {
    if pwsh_on_path {
        ShellKind::Pwsh
    } else if powershell_on_path {
        ShellKind::Powershell
    } else {
        ShellKind::Cmd
    }
}

/// The shell to use: `bash` except on Windows, where the first available of
/// `pwsh` and `powershell` is chosen, falling back to `cmd`. The caller
/// reports the platform and which executables are on the PATH.
pub fn detect_shell_kind(on_windows: bool, pwsh_on_path: bool, powershell_on_path: bool) -> (r:
    ShellKind)
    ensures
        r == (if on_windows {
            spec_windows_shell(pwsh_on_path, powershell_on_path)
        } else {
            ShellKind::Bash
        }),
{
    if on_windows {
        return detect_windows_shell(pwsh_on_path, powershell_on_path);
    }
    ShellKind::Bash
}

pub fn detect_windows_shell(pwsh_on_path: bool, powershell_on_path: bool) -> (r: ShellKind)
    ensures
        r == spec_windows_shell(pwsh_on_path, powershell_on_path),
{
    if pwsh_on_path {
        return ShellKind::Pwsh;
    }
    if powershell_on_path {
        return ShellKind::Powershell;
    }
    ShellKind::Cmd
}

/// The executable of a shell kind.
pub open spec fn shell_program(kind: ShellKind) -> Seq<char> {
    match kind {
        ShellKind::Bash => "bash"@,
        ShellKind::Pwsh => "pwsh"@,
        ShellKind::Powershell => "powershell"@,
        ShellKind::Cmd => "cmd"@,
    }
}

/// The arguments placed before the command text.
pub open spec fn shell_args(kind: ShellKind) -> Seq<Seq<char>> {
    match kind {
        ShellKind::Bash => seq!["-lc"@],
        ShellKind::Pwsh => seq!["-NoLogo"@, "-NoProfile"@, "-Command"@],
        ShellKind::Powershell => seq!["-NoLogo"@, "-NoProfile"@, "-Command"@],
        ShellKind::Cmd => seq!["/C"@],
    }
}

/// The program and leading arguments that run a command in a shell.
pub fn shell_command(kind: ShellKind) -> (r: (&'static str, Vec<&'static str>))
    ensures
        r.0@ == shell_program(kind),
        crate::text::strs_view(r.1@) == shell_args(kind),
{
    let r = match kind {
        ShellKind::Bash => ("bash", vec!["-lc"]),
        ShellKind::Pwsh => ("pwsh", vec!["-NoLogo", "-NoProfile", "-Command"]),
        ShellKind::Powershell => ("powershell", vec!["-NoLogo", "-NoProfile", "-Command"]),
        ShellKind::Cmd => ("cmd", vec!["/C"]),
    };
    proof {
        assert(crate::text::strs_view(r.1@) =~= shell_args(kind));
    }
    r
}

/// Guidance for the model on how to use a shell kind.
pub open spec fn spec_shell_prompt(kind: ShellKind) -> Seq<char> {
    match kind {
        ShellKind::Bash => r#"Use `bash` on Linux/macOS. Prefer concise shell commands.
- Use `bash -lc` style command execution.
- Prefer `rg`, `fd`, `sed`, `awk`, `git`, and standard Unix tools.
- Combine short sequences into one command when it improves clarity.
- Keep commands safe and scoped to the requested task."#@,
        ShellKind::Pwsh => r#"Use `pwsh` on modern Windows (PowerShell Core).
- Prefer PowerShell Core cmdlets and syntax.
- Use `Get-ChildItem`, `Select-String`, `Set-Content`, `Get-Content`, `Test-Path`.
- Prefer `pwsh -NoLogo -NoProfile -Command` execution.
- Keep commands explicit; avoid shell-specific assumptions from Unix."#@,
        ShellKind::Powershell => r#"Use `powershell` (Windows PowerShell 5.1).
- Prefer Windows PowerShell cmdlets and syntax.
- Use `Get-ChildItem`, `Select-String`, `Set-Content`, `Get-Content`, `Test-Path`.
- Prefer `powershell -NoLogo -NoProfile -Command` execution.
- Avoid Unix-only tools unless they are installed and explicitly available."#@,
        ShellKind::Cmd => r#"Use `cmd` only when Windows shell compatibility is required.
- Prefer `dir`, `type`, `copy`, `move`, `del`, `where`, `for` when needed.
- Prefer `cmd /C` execution.
- Avoid relying on PowerShell-only features or Unix tools."#@,
    }
}

pub fn shell_tool_prompt(kind: ShellKind) -> (r: &'static str)
    ensures
        r@ == spec_shell_prompt(kind),
{
    match kind {
        ShellKind::Bash => r#"Use `bash` on Linux/macOS. Prefer concise shell commands.
- Use `bash -lc` style command execution.
- Prefer `rg`, `fd`, `sed`, `awk`, `git`, and standard Unix tools.
- Combine short sequences into one command when it improves clarity.
- Keep commands safe and scoped to the requested task."#,
        ShellKind::Pwsh => r#"Use `pwsh` on modern Windows (PowerShell Core).
- Prefer PowerShell Core cmdlets and syntax.
- Use `Get-ChildItem`, `Select-String`, `Set-Content`, `Get-Content`, `Test-Path`.
- Prefer `pwsh -NoLogo -NoProfile -Command` execution.
- Keep commands explicit; avoid shell-specific assumptions from Unix."#,
        ShellKind::Powershell => r#"Use `powershell` (Windows PowerShell 5.1).
- Prefer Windows PowerShell cmdlets and syntax.
- Use `Get-ChildItem`, `Select-String`, `Set-Content`, `Get-Content`, `Test-Path`.
- Prefer `powershell -NoLogo -NoProfile -Command` execution.
- Avoid Unix-only tools unless they are installed and explicitly available."#,
        ShellKind::Cmd => r#"Use `cmd` only when Windows shell compatibility is required.
- Prefer `dir`, `type`, `copy`, `move`, `del`, `where`, `for` when needed.
- Prefer `cmd /C` execution.
- Avoid relying on PowerShell-only features or Unix tools."#,
    }
}

pub fn shell_environment_hint(kind: ShellKind) -> (r: &'static str)
    ensures
        r@ == shell_program(kind),
{
    match kind {
        ShellKind::Bash => "bash",
        ShellKind::Pwsh => "pwsh",
        ShellKind::Powershell => "powershell",
        ShellKind::Cmd => "cmd",
    }
}

/// The path of the shell executable (its bare name, resolved through the PATH).
pub fn shell_binary_path(kind: ShellKind) -> (r: String)
    ensures
        r@ == shell_program(kind),
{
    let (bin, _) = shell_command(kind);
    String::from_str(bin)
}


/// Each shell's prompt opens by naming its program in backquotes, as
/// `shell_environment_hint` names it.
pub proof fn lemma_shell_prompt_names_program(kind: ShellKind)
    ensures
        starts_with(spec_shell_prompt(kind), "Use `"@ + shell_program(kind) + "`"@),
        spec_shell_prompt(kind).len() > 0,
{
    reveal_strlit("Use `");
    reveal_strlit("`");
    match kind {
        ShellKind::Bash => {
            reveal_strlit(r#"Use `bash` on Linux/macOS. Prefer concise shell commands.
- Use `bash -lc` style command execution.
- Prefer `rg`, `fd`, `sed`, `awk`, `git`, and standard Unix tools.
- Combine short sequences into one command when it improves clarity.
- Keep commands safe and scoped to the requested task."#);
            reveal_strlit("bash");
            reveal_strlit("Use `bash`");
            assert(spec_shell_prompt(kind).subrange(0, 10) =~= "Use `bash`"@);
            assert("Use `"@ + "bash"@ + "`"@ =~= "Use `bash`"@);
        },
        ShellKind::Pwsh => {
            reveal_strlit(r#"Use `pwsh` on modern Windows (PowerShell Core).
- Prefer PowerShell Core cmdlets and syntax.
- Use `Get-ChildItem`, `Select-String`, `Set-Content`, `Get-Content`, `Test-Path`.
- Prefer `pwsh -NoLogo -NoProfile -Command` execution.
- Keep commands explicit; avoid shell-specific assumptions from Unix."#);
            reveal_strlit("pwsh");
            reveal_strlit("Use `pwsh`");
            assert(spec_shell_prompt(kind).subrange(0, 10) =~= "Use `pwsh`"@);
            assert("Use `"@ + "pwsh"@ + "`"@ =~= "Use `pwsh`"@);
        },
        ShellKind::Powershell => {
            reveal_strlit(r#"Use `powershell` (Windows PowerShell 5.1).
- Prefer Windows PowerShell cmdlets and syntax.
- Use `Get-ChildItem`, `Select-String`, `Set-Content`, `Get-Content`, `Test-Path`.
- Prefer `powershell -NoLogo -NoProfile -Command` execution.
- Avoid Unix-only tools unless they are installed and explicitly available."#);
            reveal_strlit("powershell");
            reveal_strlit("Use `powershell`");
            assert(spec_shell_prompt(kind).subrange(0, 16) =~= "Use `powershell`"@);
            assert("Use `"@ + "powershell"@ + "`"@ =~= "Use `powershell`"@);
        },
        ShellKind::Cmd => {
            reveal_strlit(r#"Use `cmd` only when Windows shell compatibility is required.
- Prefer `dir`, `type`, `copy`, `move`, `del`, `where`, `for` when needed.
- Prefer `cmd /C` execution.
- Avoid relying on PowerShell-only features or Unix tools."#);
            reveal_strlit("cmd");
            reveal_strlit("Use `cmd`");
            assert(spec_shell_prompt(kind).subrange(0, 9) =~= "Use `cmd`"@);
            assert("Use `"@ + "cmd"@ + "`"@ =~= "Use `cmd`"@);
        },
    }
    assert(("Use `"@ + shell_program(kind) + "`"@).len() > 0);
}

} // verus!
