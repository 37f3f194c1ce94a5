use openrust_core::catalog::{add_preset, empty_preset_table, prompt_hints, registry_category_names, resolve_tool_names, tool_catalog, tool_names, ToolCategory};




#[test]
fn tool_names_cover_all_catalog_entries() {
    let names = tool_names();
    assert!(names.contains(&"read"));
    assert!(names.contains(&"bash"));
    assert!(names.contains(&"undo_edit"));
}

#[test]
fn prompt_hints_are_available_for_all_tools() {
    let hints = prompt_hints();
    assert_eq!(hints.len(), tool_catalog().len());
    assert!(hints.iter().all(|hint| !hint.is_empty()));
}

#[test]
fn catalog_groups_tools_by_category() {
    let groups = registry_category_names();
    assert!(
        groups
            .iter()
            .any(|(category, names)| *category == ToolCategory::Filesystem
                && names.contains(&"read"))
    );
    assert!(
        groups.iter().any(
            |(category, names)| *category == ToolCategory::Shell && names.contains(&"bash")
        )
    );
}

#[test]
fn read_only_strips_write_and_shell_tools() {
    let tools = resolve_tool_names("read_only", &empty_preset_table(), false);
    let names: Vec<&str> = tools.iter().map(|t| t.name).collect();
    assert!(!names.contains(&"write"));
    assert!(!names.contains(&"edit"));
    assert!(!names.contains(&"bash"));
    assert!(names.contains(&"read"));
    assert!(names.contains(&"grep"));
    assert!(names.contains(&"webfetch"));
}

#[test]
fn all_preset_keeps_write_tools() {
    let tools = resolve_tool_names("all", &empty_preset_table(), false);
    let names: Vec<&str> = tools.iter().map(|t| t.name).collect();
    assert!(names.contains(&"write"));
    assert!(names.contains(&"read"));
}

#[test]
fn empty_spec_defaults_to_all() {
    let tools = resolve_tool_names("", &empty_preset_table(), false);
    assert_eq!(tools.len(), tool_catalog().len());
}

#[test]
fn none_preset_is_empty() {
    let tools = resolve_tool_names("none", &empty_preset_table(), false);
    assert!(tools.is_empty());
}

#[test]
fn explicit_list_resolves_named_tools() {
    let tools = resolve_tool_names("[read, grep, bash]", &empty_preset_table(), false);
    let names: Vec<&str> = tools.iter().map(|t| t.name).collect();
    assert_eq!(names, vec!["read", "grep", "bash"]);
}

#[test]
fn custom_preset_defines_new_set() {
    let mut presets = empty_preset_table();
    add_preset(
        &mut presets,
        "research".to_string(),
        vec!["read".to_string(), "grep".to_string()],
    );
    let tools = resolve_tool_names("research", &presets, false);
    let names: Vec<&str> = tools.iter().map(|t| t.name).collect();
    assert_eq!(names, vec!["read", "grep"]);
}

#[test]
fn custom_preset_overrides_builtin() {
    let mut presets = empty_preset_table();
    add_preset(&mut presets, "read_only".to_string(), vec!["read".to_string()]);
    let tools = resolve_tool_names("read_only", &presets, false);
    let names: Vec<&str> = tools.iter().map(|t| t.name).collect();
    assert_eq!(names, vec!["read"]);
}

#[test]
fn subagent_excludes_task_and_question() {
    let tools = resolve_tool_names("all", &empty_preset_table(), true);
    let names: Vec<&str> = tools.iter().map(|t| t.name).collect();
    assert!(!names.contains(&"task"));
    assert!(!names.contains(&"question"));
    assert!(!names.contains(&"todowrite"));
    assert!(names.contains(&"read"));
}
