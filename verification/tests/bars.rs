use dscode::bars::{ActivityBarRegistry, StatusBarAlignment, StatusBarRegistry};

#[test]
fn activity_bar_registry_test_item_key() {
    let key = ActivityBarRegistry::item_key("my-extension", "custom-view");
    assert_eq!(key, "my-extension:custom-view");
}

#[test]
fn status_bar_registry_test_item_key() {
    let key = StatusBarRegistry::item_key("my-extension", "status-item-1");
    assert_eq!(key, "my-extension:status-item-1");
}

#[test]
fn core_items_show_by_priority() {
    let reg = ActivityBarRegistry::new();
    let ids: Vec<String> = reg.get_visible_items().iter().map(|i| i.id.clone()).collect();
    assert_eq!(ids, vec!["explorer", "search", "scm", "debug", "extensions"]);
}

#[test]
fn registered_items_take_their_place_and_hide() {
    let mut reg = ActivityBarRegistry::new();
    let key = reg
        .register_item("ext".to_string(), "view".to_string(), "View".to_string(), None, None, Some(950))
        .unwrap();
    assert_eq!(key, "ext:view");
    let ids: Vec<String> = reg.get_visible_items().iter().map(|i| i.id.clone()).collect();
    assert_eq!(ids, vec!["explorer", "view", "search", "scm", "debug", "extensions"]);
    assert_eq!(reg.hide_item("ext:view".to_string()), Ok(true));
    assert_eq!(reg.get_visible_items().len(), 5);
    assert!(reg.show_item("missing".to_string()).is_err());
    assert_eq!(reg.update_badge("ext:view".to_string(), Some(3), None), Ok(false));
    assert_eq!(reg.get_item("ext:view").unwrap().badge_count, Some(3));
}

#[test]
fn clearing_an_owner_keeps_core_items() {
    let mut reg = ActivityBarRegistry::new();
    reg.register_item("ext".to_string(), "a".to_string(), "A".to_string(), None, None, None).unwrap();
    assert_eq!(reg.clear_owner_items("ext"), Ok(true));
    assert_eq!(reg.clear_owner_items("__core__"), Ok(false));
    assert_eq!(reg.get_visible_items().len(), 5);
}

#[test]
fn status_items_start_hidden_and_update() {
    let mut reg = StatusBarRegistry::new();
    let key = reg
        .create_item("ext".to_string(), "s".to_string(), StatusBarAlignment::Left, Some(5))
        .unwrap();
    assert_eq!(key, "ext:s");
    assert!(reg.get_visible_items().is_empty());
    assert_eq!(
        reg.update_item(key.clone(), Some("Ready".to_string()), None, None, None, None),
        Ok(false)
    );
    assert_eq!(reg.show_item(key.clone()), Ok(true));
    let shown = reg.get_visible_items();
    assert_eq!(shown.len(), 1);
    assert_eq!(shown[0].text, "Ready");
    assert!(reg.dispose_item("nope".to_string()).is_err());
    assert_eq!(reg.dispose_item(key.clone()), Ok(true));
    assert!(reg.get_item(&key).is_none());
}
