use openrust_core::highlight::highlight_code;

fn texts(lines: &[Vec<(Option<openrust_core::theme::Rgb>, String)>]) -> Vec<String> {
    lines.iter().map(|l| l.iter().map(|p| p.1.as_str()).collect::<String>()).collect()
}

#[test]
fn highlights_rust_into_multiple_spans() {
    let lines = highlight_code("fn main() {\n    let x = 1;\n}\n", Some("rust"), "base16-ocean.dark");
    assert_eq!(lines.len(), 3);
    assert!(lines[0].len() > 1);
    assert_eq!(texts(&lines), vec!["fn main() {", "    let x = 1;", "}"]);
}

#[test]
fn theme_name_selects_palette() {
    let dark = highlight_code("fn main() {}", Some("rust"), "base16-ocean.dark");
    let light = highlight_code("fn main() {}", Some("rust"), "InspiredGitHub");
    assert_ne!(
        dark[0].iter().map(|p| p.0).collect::<Vec<_>>(),
        light[0].iter().map(|p| p.0).collect::<Vec<_>>()
    );
}

#[test]
fn unknown_theme_falls_back() {
    let lines = highlight_code("let x = 1;", Some("rust"), "no-such-theme");
    assert!(!lines.is_empty());
    let fallback = highlight_code("let x = 1;", Some("rust"), "base16-ocean.dark");
    assert_eq!(lines, fallback);
}

#[test]
fn unknown_language_falls_back_to_plain() {
    let lines = highlight_code("just text\n", Some("nonesuch"), "base16-ocean.dark");
    assert_eq!(lines.len(), 1);
    assert_eq!(texts(&lines), vec!["just text"]);
}

#[test]
fn handles_no_language() {
    let lines = highlight_code("plain\nlines\n", None, "base16-ocean.dark");
    assert_eq!(lines.len(), 2);
    assert_eq!(highlight_code("plain\n", Some("  "), "base16-ocean.dark"), highlight_code("plain\n", None, "base16-ocean.dark"));
}

#[test]
fn builtin_tui_themes_resolve_to_syntect_themes() {
    for name in ["dark", "light", "hacker"] {
        let t = openrust_core::theme::builtin(name).unwrap().to_theme().unwrap();
        let with_theme = highlight_code("fn main() {}", Some("rust"), t.syntect_theme());
        let fallback = highlight_code("fn main() {}", Some("rust"), "no-such-theme");
        if name != "dark" {
            assert_ne!(with_theme, fallback, "theme {name} should name a syntect theme");
        }
    }
}
