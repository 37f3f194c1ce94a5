use openrust_core::shell::{shell_command, shell_environment_hint, shell_tool_prompt, ShellKind};



#[test]
fn prompts_are_non_empty() {
    assert!(!shell_tool_prompt(ShellKind::Bash).is_empty());
    assert!(!shell_tool_prompt(ShellKind::Pwsh).is_empty());
    assert!(!shell_tool_prompt(ShellKind::Powershell).is_empty());
    assert!(!shell_tool_prompt(ShellKind::Cmd).is_empty());
}

#[test]
fn shell_commands_match_kinds() {
    assert_eq!(shell_command(ShellKind::Bash).0, "bash");
    assert_eq!(shell_command(ShellKind::Pwsh).0, "pwsh");
    assert_eq!(shell_command(ShellKind::Powershell).0, "powershell");
    assert_eq!(shell_command(ShellKind::Cmd).0, "cmd");
}

#[test]
fn shell_environment_hint_matches_kind() {
    assert_eq!(shell_environment_hint(ShellKind::Bash), "bash");
    assert_eq!(shell_environment_hint(ShellKind::Pwsh), "pwsh");
    assert_eq!(shell_environment_hint(ShellKind::Powershell), "powershell");
    assert_eq!(shell_environment_hint(ShellKind::Cmd), "cmd");
}
