use dscode::json::{JsonNumber, JsonValue};
use dscode::workspace::{FileDecoration, FileDecorationProvider, WorkspaceFolder, WorkspaceRegistry};

fn folder(uri: &str, index: usize) -> WorkspaceFolder {
    WorkspaceFolder { uri: uri.to_string(), name: uri.to_string(), index }
}

fn deco(uri: &str, badge: &str) -> FileDecoration {
    FileDecoration { uri: uri.to_string(), badge: Some(badge.to_string()), tooltip: None, color: None, propagate: false }
}

#[test]
fn folders_stay_ordered_by_index() {
    let mut reg = WorkspaceRegistry::new();
    reg.add_workspace_folder(folder("/b", 1)).unwrap();
    reg.add_workspace_folder(folder("/a", 0)).unwrap();
    reg.add_workspace_folder(folder("/c", 1)).unwrap();
    let uris: Vec<String> = reg.get_workspace_folders().iter().map(|f| f.uri.clone()).collect();
    assert_eq!(uris, vec!["/a", "/b", "/c"]);
    assert_eq!(
        reg.add_workspace_folder(folder("/a", 5)),
        Err("Workspace folder already exists".to_string())
    );
}

#[test]
fn removing_a_folder_renumbers_the_rest() {
    let mut reg = WorkspaceRegistry::new();
    reg.add_workspace_folder(folder("/a", 0)).unwrap();
    reg.add_workspace_folder(folder("/b", 1)).unwrap();
    reg.add_workspace_folder(folder("/c", 2)).unwrap();
    reg.remove_workspace_folder("/a").unwrap();
    let f = reg.get_workspace_folders();
    assert_eq!(f.len(), 2);
    assert_eq!((f[0].uri.as_str(), f[0].index), ("/b", 0));
    assert_eq!((f[1].uri.as_str(), f[1].index), ("/c", 1));
    assert_eq!(reg.remove_workspace_folder("/zzz"), Err("Workspace folder not found".to_string()));
}

#[test]
fn configuration_is_kept_per_section_and_scope() {
    let mut reg = WorkspaceRegistry::new();
    reg.update_configuration("editor".to_string(), None, "tabSize".to_string(), JsonValue::Number(JsonNumber::PosInt(4)))
        .unwrap();
    reg.update_configuration("editor".to_string(), Some("rust".to_string()), "tabSize".to_string(), JsonValue::Number(JsonNumber::PosInt(2)))
        .unwrap();
    reg.update_configuration("editor".to_string(), None, "tabSize".to_string(), JsonValue::Number(JsonNumber::PosInt(8)))
        .unwrap();
    let c = reg.get_configuration("editor", None).unwrap();
    assert_eq!(c.values.len(), 1);
    assert!(matches!(c.values.get("tabSize"), Some(JsonValue::Number(JsonNumber::PosInt(8)))));
    let scoped = reg.get_configuration("editor", Some("rust")).unwrap();
    assert_eq!(scoped.scope.as_deref(), Some("rust"));
    assert!(reg.get_configuration("files", None).is_none());
}

#[test]
fn decorations_are_found_by_uri_and_cleared_with_their_provider() {
    let mut reg = WorkspaceRegistry::new();
    let id = reg
        .register_file_decoration_provider(FileDecorationProvider { id: "p1".to_string(), owner: "ext".to_string() })
        .unwrap();
    assert_eq!(id, "p1");
    reg.update_file_decorations("p1".to_string(), vec![deco("/f", "M"), deco("/g", "U")]).unwrap();
    reg.update_file_decorations("p2".to_string(), vec![deco("/f", "!")]).unwrap();
    let found: Vec<String> = reg.get_file_decorations("/f").iter().map(|d| d.badge.clone().unwrap()).collect();
    assert_eq!(found, vec!["M", "!"]);
    reg.clear_owner_data("ext").unwrap();
    assert!(reg.get_file_decorations("/f").is_empty());
}
