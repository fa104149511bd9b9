use dscode::textdocument::CoreError;
use dscode::themes::{ColorTheme, IconDefinition, IconTheme, ThemeRegistry, ThemeType};

fn color(id: &str, owner: &str, ty: ThemeType) -> ColorTheme {
    ColorTheme {
        id: id.to_string(),
        label: id.to_string(),
        owner: owner.to_string(),
        theme_type: ty,
        colors: vec![("editor.background".to_string(), "#000000".to_string())],
        token_colors: vec![],
    }
}

fn icons(id: &str, owner: &str) -> IconTheme {
    IconTheme {
        id: id.to_string(),
        label: id.to_string(),
        owner: owner.to_string(),
        icon_definitions: vec![("file".to_string(), IconDefinition { icon_path: "f.svg".to_string() })],
        file_associations: vec![],
        folder_associations: vec![],
        file_extensions: vec![],
        language_ids: vec![],
    }
}

#[test]
fn active_themes_must_be_registered() {
    let mut reg = ThemeRegistry::new();
    reg.register_color_theme(color("dark+", "core", ThemeType::Dark)).ok().unwrap();
    reg.register_color_theme(color("light", "core", ThemeType::Light)).ok().unwrap();
    assert_eq!(reg.get_color_themes_by_type(ThemeType::Dark).len(), 1);
    let ev = reg.set_active_color_theme("dark+".to_string()).ok().unwrap();
    assert_eq!((ev.theme_id.as_str(), ev.theme_type.as_str()), ("dark+", "color"));
    assert_eq!(reg.get_active_color_theme().unwrap().id, "dark+");
    match reg.set_active_color_theme("missing".to_string()) {
        Err(CoreError::Config(m)) => assert!(m.contains("missing")),
        _ => panic!("expected a configuration error"),
    }
    assert_eq!(reg.get_theme_settings().active_color_theme.as_deref(), Some("dark+"));
}

#[test]
fn clearing_an_owner_keeps_the_settings() {
    let mut reg = ThemeRegistry::new();
    reg.register_icon_theme(icons("seti", "ext")).ok().unwrap();
    reg.set_active_icon_theme("seti".to_string()).ok().unwrap();
    reg.clear_theme_data("ext");
    assert!(reg.get_all_icon_themes().is_empty());
    assert_eq!(reg.get_theme_settings().active_icon_theme.as_deref(), Some("seti"));
    assert!(reg.get_active_icon_theme().is_none());
    assert!(reg.unregister_color_theme("none").is_err());
}
