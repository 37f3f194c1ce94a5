use openrust_core::commands::{
    is_exit_command, parse_slash_command, permission_key, permission_status, should_exit,
    PermissionKey, SlashCommand, ThinkingMode, ThinkingModeCommand,
};

#[test]
fn exit_commands_are_detected() {
    assert!(is_exit_command("/exit"));
    assert!(is_exit_command("exit"));
    assert!(is_exit_command("/quit"));
    assert!(is_exit_command("/q"));
    assert!(!is_exit_command("exiting soon"));
}

#[test]
fn thinking_mode_labels_are_stable() {
    assert_eq!(ThinkingMode::Show.label(), "show");
    assert_eq!(ThinkingMode::Hide.label(), "hide");
}

#[test]
fn slash_commands_include_agent_and_task() {
    match parse_slash_command("/agent use build") {
        Some(SlashCommand::Agent(args)) => assert_eq!(args, vec!["use", "build"]),
        other => panic!("unexpected parse result: {:?}", other),
    }

    match parse_slash_command("/compact 4") {
        Some(SlashCommand::Compact(args)) => assert_eq!(args, vec!["4"]),
        other => panic!("unexpected parse result: {:?}", other),
    }

    match parse_slash_command("/task add write tests pending") {
        Some(SlashCommand::Task(args)) => {
            assert_eq!(args, vec!["add", "write", "tests", "pending"])
        }
        other => panic!("unexpected parse result: {:?}", other),
    }

    match parse_slash_command("/thinking show") {
        Some(SlashCommand::Thinking(ThinkingModeCommand::Show)) => {}
        other => panic!("unexpected parse result: {:?}", other),
    }
}

#[test]
fn slash_command_variants_and_aliases() {
    assert!(matches!(parse_slash_command("  /think   off "), Some(SlashCommand::Thinking(ThinkingModeCommand::Hide))));
    assert!(matches!(parse_slash_command("/thinking maybe"), Some(SlashCommand::Thinking(ThinkingModeCommand::Toggle))));
    assert!(matches!(parse_slash_command("/tree"), Some(SlashCommand::Files)));
    assert!(matches!(parse_slash_command("/diff extra"), Some(SlashCommand::Diff)));
    assert!(matches!(parse_slash_command("/reload"), Some(SlashCommand::Reload)));
    assert!(matches!(parse_slash_command("/dream"), Some(SlashCommand::Dream)));
    match parse_slash_command("/model\tgpt  x") {
        Some(SlashCommand::Models(args)) => assert_eq!(args, vec!["gpt", "x"]),
        other => panic!("unexpected parse result: {:?}", other),
    }
    match parse_slash_command("/session") {
        Some(SlashCommand::Session(args)) => assert!(args.is_empty()),
        other => panic!("unexpected parse result: {:?}", other),
    }
    assert!(parse_slash_command("/unknown").is_none());
    assert!(parse_slash_command("   ").is_none());
    assert!(parse_slash_command("hello /agent").is_none());
}

#[test]
fn thinking_commands_apply() {
    assert_eq!(ThinkingModeCommand::Toggle.apply(ThinkingMode::Show), ThinkingMode::Hide);
    assert_eq!(ThinkingModeCommand::Toggle.apply(ThinkingMode::Hide), ThinkingMode::Show);
    assert_eq!(ThinkingModeCommand::Show.apply(ThinkingMode::Hide), ThinkingMode::Show);
    assert_eq!(ThinkingModeCommand::Hide.apply(ThinkingMode::Hide), ThinkingMode::Hide);
    let m = ThinkingMode::Show;
    let twice = ThinkingModeCommand::Toggle.apply(ThinkingModeCommand::Toggle.apply(m));
    assert_eq!(twice, m);
}

#[test]
fn exit_key_is_control_c() {
    assert!(should_exit(Some('c'), true));
    assert!(!should_exit(Some('c'), false));
    assert!(!should_exit(None, true));
    assert!(!should_exit(Some('d'), true));
    assert!(is_exit_command("  /q \n"));
    assert!(!is_exit_command("/Q"));
}

#[test]
fn permission_keys_decide_or_switch() {
    assert_eq!(permission_key(false, PermissionKey::Allow), (false, Some(true)));
    assert_eq!(permission_key(true, PermissionKey::Deny), (true, Some(false)));
    assert_eq!(permission_key(false, PermissionKey::Switch), (true, None));
    assert_eq!(permission_key(true, PermissionKey::Enter), (true, Some(true)));
    assert_eq!(permission_key(false, PermissionKey::Enter), (false, Some(false)));
    assert_eq!(permission_key(true, PermissionKey::Other), (true, None));
    assert_eq!(permission_status(true), "permission: allowed");
    assert_eq!(permission_status(false), "permission: denied");
}

#[test]
fn exit_keys_are_detected() {
    // Esc and Enter carry no character; control-C does.
    assert!(!should_exit(None, false));
    assert!(should_exit(Some('c'), true));
    assert!(!should_exit(None, false));
}
