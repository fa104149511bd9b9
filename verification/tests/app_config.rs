use dscode::app_config::{
    base_dir_from, default_extensions_dir, default_logs_dir, default_storage_dir, extract_path, join_path,
    normalize_path_with, preferred_directories, user_paths_from_config, UserConfiguredPaths,
};
use dscode::json::JsonValue;

fn obj(members: Vec<(&str, JsonValue)>) -> JsonValue {
    JsonValue::Object(members.into_iter().map(|(k, v)| (k.to_string(), v)).collect())
}

fn s(v: &str) -> JsonValue {
    JsonValue::Str(v.to_string())
}

#[test]
fn paths_join_like_std() {
    for (base, comp) in [("/home/u", ".dscode"), ("/home/u/", "x"), ("", "a"), ("/a", "/abs")] {
        let expected = std::path::Path::new(base).join(comp).to_string_lossy().to_string();
        assert_eq!(join_path(base, comp), expected);
    }
}

#[test]
fn defaults_live_under_the_base_directory() {
    let base = base_dir_from(Some("/home/u".to_string()), None, "/tmp");
    assert_eq!(base, "/home/u/.dscode");
    assert_eq!(base_dir_from(None, Some("/h".to_string()), "/tmp"), "/h/.dscode");
    assert_eq!(base_dir_from(None, None, "/tmp"), "/tmp/dscode");
    assert_eq!(default_extensions_dir(&base), "/home/u/.dscode/extensions");
    assert_eq!(default_storage_dir(&base), "/home/u/.dscode/storage");
    assert_eq!(default_logs_dir(&base), "/home/u/.dscode/logs");
}

#[test]
fn tilde_resolves_against_home() {
    let home = Some("/home/u".to_string());
    assert_eq!(normalize_path_with("~".to_string(), home.clone(), None), Ok("/home/u".to_string()));
    assert_eq!(normalize_path_with("~/ext".to_string(), home.clone(), None), Ok("/home/u/ext".to_string()));
    assert_eq!(normalize_path_with("~/ext".to_string(), None, Some("/e".to_string())), Ok("/e/ext".to_string()));
    assert_eq!(normalize_path_with("/abs".to_string(), None, None), Ok("/abs".to_string()));
    assert_eq!(
        normalize_path_with("~".to_string(), None, None),
        Err("Unable to resolve home directory for '~' path".to_string())
    );
    assert_eq!(
        normalize_path_with("~/x".to_string(), None, None),
        Err("Unable to resolve home directory for '~/...' path".to_string())
    );
}

#[test]
fn user_configuration_names_paths_at_top_level_or_under_paths() {
    let cfg = obj(vec![
        ("storage_dir", s("/data")),
        ("paths", obj(vec![("extensionsDir", s("/exts")), ("logsDir", s("/logs"))])),
        ("logs_dir", JsonValue::Bool(true)),
    ]);
    let user = user_paths_from_config(&cfg);
    assert_eq!(user.extensions.as_deref(), Some("/exts"));
    assert_eq!(user.storage.as_deref(), Some("/data"));
    assert_eq!(user.logs.as_deref(), Some("/logs"));
    assert_eq!(extract_path(&cfg, &["missing"], Some("paths")), None);
    assert_eq!(extract_path(&cfg, &["storageDir", "storage_dir"], None).as_deref(), Some("/data"));
}

#[test]
fn the_environment_override_wins_for_extensions() {
    let user = UserConfiguredPaths { extensions: Some("/u".to_string()), storage: None, logs: Some("/l".to_string()) };
    let d = preferred_directories(Some("/env".to_string()), user, "/b");
    assert_eq!(d.extensions_dir, "/env");
    assert_eq!(d.storage_dir, "/b/storage");
    assert_eq!(d.logs_dir, "/l");
}
