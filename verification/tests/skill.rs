use openrust_core::skill::{builtin_skill_body, builtin_skills, extract_description, is_invalid_skill_name, parse_frontmatter};

#[test]
fn malformed_frontmatter_warns() {
    let (body, errors) = parse_frontmatter("---\nbad line\n---\nreal body\n");
    assert!(errors.contains("invalid YAML line"));
    assert!(body.contains("real body"));
}

#[test]
fn missing_closing_delimiter_warns() {
    let (body, errors) = parse_frontmatter("---\nkey: value\nmore body\n");
    assert!(errors.contains("missing closing"));
    assert!(body.contains("---"));
}

#[test]
fn extract_description_from_frontmatter() {
    let content = "---\nname: demo\ndescription: A skill for testing\n---\nBody";
    assert_eq!(extract_description(content), "A skill for testing");
}

#[test]
fn extract_description_missing_returns_empty() {
    assert_eq!(extract_description("---\nname: demo\n---\nBody"), "");
    assert_eq!(extract_description("No frontmatter at all"), "");
}

#[test]
fn builtin_skills_are_registered() {
    let names: Vec<_> = builtin_skills().into_iter().map(|s| s.name).collect();
    assert!(names.contains(&"create-agent".to_string()));
    assert!(names.contains(&"create-skills".to_string()));
}

#[test]
fn frontmatter_body_and_errors_exact() {
    let (body, errors) = parse_frontmatter("---\nname: demo\n---\nStep one\nStep two\n");
    assert_eq!(body, "Step one\nStep two\n");
    assert_eq!(errors, "");
    let (body, errors) = parse_frontmatter("---\r\nbad\r\n# c\r\n- item\r\nworse\r\n---\r\n\r\nBody");
    assert_eq!(body, "Body");
    assert_eq!(errors, "invalid YAML line: 'bad'; invalid YAML line: 'worse'");
    let (body, errors) = parse_frontmatter("no frontmatter");
    assert_eq!(body, "no frontmatter");
    assert_eq!(errors, "");
}

#[test]
fn description_is_unquoted() {
    assert_eq!(extract_description("---\ndescription: \"quoted\"\n---\n"), "quoted");
    assert_eq!(extract_description("---\n  description:   'single'  \n---\n"), "single");
}

#[test]
fn skill_names_with_path_parts_are_invalid() {
    assert!(is_invalid_skill_name("../etc/passwd"));
    assert!(is_invalid_skill_name("a\\b"));
    assert!(is_invalid_skill_name("x..y"));
    assert!(!is_invalid_skill_name("demo"));
}

#[test]
fn builtin_bodies_are_found_by_name() {
    let body = builtin_skill_body("create-agent").unwrap();
    assert!(body.contains("create-agent"));
    assert!(body.contains("mode: primary"));
    assert!(body.contains("Frontmatter fields"));
    assert!(builtin_skill_body("create-skills").unwrap().contains("SKILL.md"));
    assert!(builtin_skill_body("absent").is_none());
}

fn entry(name: &str, desc: &str, path: &str) -> openrust_core::skill::SkillEntry {
    openrust_core::skill::SkillEntry {
        name: name.to_string(),
        description: desc.to_string(),
        path: path.to_string(),
    }
}

#[test]
fn builtin_skills_appear_in_list() {
    let names = openrust_core::skill::list_skill_names(vec![Vec::new(), Vec::new()]);
    assert!(names.contains(&"create-agent".to_string()));
    assert!(names.contains(&"create-skills".to_string()));
}

#[test]
fn project_skills_override_global_and_builtin() {
    let project = vec![entry("dual", "project content", "/p/dual/SKILL.md"), entry("create-agent", "Custom override", "/p/ca/SKILL.md")];
    let global = vec![entry("dual", "global content", "/g/dual/SKILL.md"), entry("zeta", "z", "/g/zeta/SKILL.md")];
    let all = openrust_core::skill::list_skills(vec![project, Vec::new(), Vec::new(), global]);
    let names: Vec<&str> = all.iter().map(|e| e.name.as_str()).collect();
    assert_eq!(names, vec!["create-agent", "create-skills", "dual", "zeta"]);
    assert_eq!(all[0].description, "Custom override");
    assert_eq!(all[2].description, "project content");
    assert_eq!(all[1].path, "builtin/create-skills");
}
