use openrust_core::theme::{builtin, builtin_dark, builtin_hacker, builtin_light, parse_hex, resolve_theme, to_hex, is_hex_safe, Rgb, Theme, ThemeFile};

fn blank() -> ThemeFile {
    ThemeFile {
        name: String::new(),
        background: String::new(),
        panel: String::new(),
        sidebar_bg: String::new(),
        footer_bg: String::new(),
        border: String::new(),
        active_border: String::new(),
        text: String::new(),
        muted: String::new(),
        user: String::new(),
        assistant: String::new(),
        assistant_text: String::new(),
        success: String::new(),
        warning: String::new(),
        thinking: String::new(),
        tool: String::new(),
        dialog: String::new(),
        dialog_selected: String::new(),
        overlay: String::new(),
        message_bg: String::new(),
        heading: String::new(),
        code: String::new(),
        link: String::new(),
        blockquote: String::new(),
        list_marker: String::new(),
        diff_delete: String::new(),
        selection: String::new(),
        selection_bg: String::new(),
        syntect_theme: String::new(),
    }
}

fn dark_file() -> ThemeFile {
    ThemeFile::from_theme(&Theme::dark())
}

#[test]
fn hex_round_trip() {
    let c = Rgb { r: 255, g: 22, b: 10 };
    assert_eq!(to_hex(c), "#FF160A");
    assert_eq!(parse_hex("#FF160A"), Some(c));
    assert_eq!(parse_hex("ff160a"), Some(c));
    assert_eq!(parse_hex("##ff160a"), Some(c));
    assert_eq!(parse_hex("#fff"), None);
    assert_eq!(parse_hex("#gg0000"), None);
    assert_eq!(parse_hex("#+f+f+f"), Some(Rgb { r: 15, g: 15, b: 15 }));
    assert_eq!(parse_hex("#ééé"), None);
    assert!(is_hex_safe("#ééé"));
    assert!(!is_hex_safe("#aéxyz"));
}

#[test]
fn overlay_overrides_only_set_fields() {
    let mut base = dark_file();
    base.name = "dark".to_string();
    let mut over = blank();
    over.background = "#FF0000".to_string();
    over.text = "#0000FF".to_string();
    base.merge(&over);
    assert_eq!(base.name, "dark");
    assert!(base.colors_readable());
    let t = base.to_theme().unwrap();
    assert_eq!(t.background, Rgb { r: 255, g: 0, b: 0 });
    assert_eq!(t.text, Rgb { r: 0, g: 0, b: 255 });
    assert_eq!(t.panel, Rgb { r: 22, g: 22, b: 26 });
}

#[test]
fn overlay_supports_new_fields() {
    let mut base = dark_file();
    let mut over = blank();
    over.diff_delete = "#FF0000".to_string();
    over.syntect_theme = "solarized.light".to_string();
    base.merge(&over);
    let t = base.to_theme().unwrap();
    assert_eq!(t.diff_delete, Rgb { r: 255, g: 0, b: 0 });
    assert_eq!(t.syntect_theme(), "solarized.light");
}

#[test]
fn dark_palette_reads_back() {
    let dark = Theme::dark();
    let t = dark_file().to_theme().unwrap();
    assert_eq!(t.background, Rgb { r: 0, g: 0, b: 0 });
    assert_eq!(t.selection, dark.selection);
    assert_eq!(t.selection_bg, dark.selection_bg);
    assert_eq!(t.assistant_text, dark.assistant_text);
    assert_eq!(t.syntect_theme, "base16-ocean.dark");
}

#[test]
fn unset_fields_fall_back() {
    let mut f = dark_file();
    f.assistant_text = String::new();
    f.syntect_theme = String::new();
    let t = f.to_theme().unwrap();
    assert_eq!(t.assistant_text, Theme::dark().assistant);
    assert_eq!(t.syntect_theme(), "base16-ocean.dark");
    let mut bad = dark_file();
    bad.panel = "nope".to_string();
    assert!(bad.to_theme().is_none());
    let mut m = dark_file();
    let copy = dark_file();
    m.merge(&copy);
    assert_eq!(m.background, copy.background);
}

#[test]
fn dark_theme_parses() {
    let t = dark_file().to_theme().unwrap();
    assert_eq!(t.background, Rgb { r: 0, g: 0, b: 0 });
}

#[test]
fn resolve_string_name() {
    let t = resolve_theme(dark_file(), None);
    assert_eq!(t.background, Rgb { r: 0, g: 0, b: 0 });
}

#[test]
fn resolve_inline_override() {
    let mut over = blank();
    over.background = "#FF0000".to_string();
    over.text = "#0000FF".to_string();
    let t = resolve_theme(dark_file(), Some(&over));
    assert_eq!(t.background, Rgb { r: 255, g: 0, b: 0 });
    assert_eq!(t.text, Rgb { r: 0, g: 0, b: 255 });
    assert_eq!(t.panel, Rgb { r: 22, g: 22, b: 26 });
}

#[test]
fn inline_override_supports_new_fields() {
    let mut over = blank();
    over.diff_delete = "#FF0000".to_string();
    over.syntect_theme = "solarized.light".to_string();
    let t = resolve_theme(dark_file(), Some(&over));
    assert_eq!(t.diff_delete, Rgb { r: 255, g: 0, b: 0 });
    assert_eq!(t.syntect_theme(), "solarized.light");
}

#[test]
fn unreadable_overlay_falls_back_to_dark() {
    let mut over = blank();
    over.panel = "#zz0000".to_string();
    let t = resolve_theme(dark_file(), Some(&over));
    assert_eq!(t.panel, Theme::dark().panel);
    assert_eq!(t.background, Rgb { r: 0, g: 0, b: 0 });
}

#[test]
fn builtin_names_the_dark_theme() {
    let d = builtin("dark").unwrap();
    assert_eq!(d.background, "#000000");
    assert_eq!(d.panel, "#16161A");
    assert_eq!(d.syntect_theme, "base16-ocean.dark");
    assert!(d.name.is_empty());
    assert!(builtin("nope").is_none());
    let t = builtin_dark().to_theme().unwrap();
    assert_eq!(t.diff_delete, Theme::dark().diff_delete);
}

#[test]
fn builtin_themes_have_syntect_and_selection() {
    for (name, syntax) in [("dark", "base16-ocean.dark"), ("light", "InspiredGitHub"), ("hacker", "base16-eighties.dark")] {
        let t = builtin(name).unwrap().to_theme().unwrap();
        assert_eq!(t.syntect_theme(), syntax);
    }
    let light = builtin_light().to_theme().unwrap();
    assert_eq!(light.background, Rgb { r: 250, g: 250, b: 250 });
    let hacker = builtin_hacker().to_theme().unwrap();
    assert_eq!(hacker.text, Rgb { r: 0, g: 255, b: 65 });
    assert!(builtin("Dark").is_none());
}
