use dscode::menus::{evaluate_when_clause, MenuContext, MenuItem, MenuLocation, MenuRegistry};

fn item(command: &str, location: Option<&str>, group: Option<&str>, title: Option<&str>, owner: &str) -> MenuItem {
    MenuItem {
        command: command.to_string(),
        location: location.map(|s| s.to_string()),
        when: None,
        group: group.map(|s| s.to_string()),
        title: title.map(|s| s.to_string()),
        icon: None,
        owner: owner.to_string(),
        alt: None,
    }
}

#[test]
fn test_menu_location_parsing() {
    assert_eq!(MenuLocation::from_str("editor/context"), MenuLocation::EditorContext);
    assert_eq!(MenuLocation::from_str("explorer/context"), MenuLocation::ExplorerContext);
}

#[test]
fn test_menu_item_sort_key() {
    let item1 = MenuItem {
        command: "test1".to_string(),
        location: None,
        when: None,
        group: Some("1_group".to_string()),
        title: Some("B Title".to_string()),
        icon: None,
        owner: "test".to_string(),
        alt: None,
    };

    let item2 = MenuItem {
        command: "test2".to_string(),
        location: None,
        when: None,
        group: Some("1_group".to_string()),
        title: Some("A Title".to_string()),
        icon: None,
        owner: "test".to_string(),
        alt: None,
    };

    assert!(item2.sort_key() < item1.sort_key());
}

#[test]
fn location_identifiers_round_trip() {
    for id in ["editor/context", "scm/resourceState/context", "commandPalette", "my/custom/menu"] {
        assert_eq!(MenuLocation::from_str(id).to_string(), id);
    }
    assert_eq!(MenuLocation::from_str("my/menu"), MenuLocation::Custom("my/menu".to_string()));
}

#[test]
fn sort_key_defaults_to_z_other_and_command() {
    let m = item("cmd.x", None, None, None, "ext");
    assert_eq!(m.sort_key(), ("z_other".to_string(), "cmd.x".to_string()));
}

#[test]
fn builtin_menus_are_registered_in_order() {
    let reg = MenuRegistry::new();
    let editor: Vec<String> = reg.get_menu_items("editor/context").into_iter().map(|m| m.command).collect();
    assert_eq!(editor, vec!["editor.action.formatDocument", "editor.action.commentLine"]);
    let explorer: Vec<String> = reg.get_menu_items("explorer/context").into_iter().map(|m| m.command).collect();
    assert_eq!(
        explorer,
        vec![
            "explorer.newFile",
            "explorer.newFolder",
            "file.delete",
            "file.rename",
            "copyFilePath",
            "copyRelativeFilePath"
        ]
    );
    let mut locations = reg.get_locations();
    locations.sort();
    assert_eq!(locations, vec!["editor/context", "explorer/context"]);
}

#[test]
fn registered_items_are_sorted_and_default_to_the_palette() {
    let mut reg = MenuRegistry::new();
    assert!(reg.register_menu_item(item("b", None, Some("2"), Some("B"), "ext")).is_ok());
    assert!(reg.register_menu_item(item("a", None, Some("1"), Some("Z"), "ext")).is_ok());
    assert!(reg.register_menu_item(item("c", None, Some("2"), Some("A"), "ext")).is_ok());
    let cmds: Vec<String> = reg.get_menu_items("commandPalette").into_iter().map(|m| m.command).collect();
    assert_eq!(cmds, vec!["a", "c", "b"]);
}

#[test]
fn equal_keys_keep_arrival_order() {
    let mut reg = MenuRegistry::new();
    reg.register_menu_items(vec![
        item("first", Some("view/title"), Some("g"), Some("T"), "ext"),
        item("second", Some("view/title"), Some("g"), Some("T"), "ext"),
    ])
    .unwrap();
    let cmds: Vec<String> = reg.get_menu_items("view/title").into_iter().map(|m| m.command).collect();
    assert_eq!(cmds, vec!["first", "second"]);
}

#[test]
fn clearing_an_owner_keeps_the_location() {
    let mut reg = MenuRegistry::new();
    reg.register_menu_item(item("x", Some("view/title"), None, None, "ext.a")).unwrap();
    reg.register_menu_item(item("y", Some("view/title"), None, None, "ext.b")).unwrap();
    reg.clear_menu_items_by_owner("ext.a");
    let cmds: Vec<String> = reg.get_menu_items("view/title").into_iter().map(|m| m.command).collect();
    assert_eq!(cmds, vec!["y"]);
    reg.clear_menu_items_by_owner("ext.b");
    assert!(reg.get_menu_items("view/title").is_empty());
    assert!(reg.get_locations().contains(&"view/title".to_string()));
    assert!(reg.get_menu_items("nowhere").is_empty());
}

#[test]
fn when_clauses_filter_items() {
    let reg = MenuRegistry::new();
    let ctx = MenuContext::new().with_selection(false).with_editor_focus(true);
    let cmds: Vec<String> =
        reg.get_menu_items_filtered("editor/context", &ctx).into_iter().map(|m| m.command).collect();
    assert_eq!(cmds, vec!["editor.action.commentLine"]);
    let ctx = ctx.with_selection(true);
    assert_eq!(reg.get_menu_items_filtered("editor/context", &ctx).len(), 2);
}

#[test]
fn resource_extension_drives_extname_clauses() {
    let ctx = MenuContext::new().with_resource("/src/main.rs".to_string());
    assert_eq!(ctx.resource_extension.as_deref(), Some("rs"));
    assert_eq!(ctx.resource_path.as_deref(), Some("/src/main.rs"));
    assert!(evaluate_when_clause("resourceExtname == .rs", &ctx));
    assert!(!evaluate_when_clause("resourceExtname == .ts", &ctx));
    assert!(evaluate_when_clause("someUnknownKey", &ctx));
    let dotfile = MenuContext::new().with_resource("/home/.bashrc".to_string());
    assert_eq!(dotfile.resource_extension, None);
}
