use dscode::commands::{CommandInfo, CommandRegistry};

fn cmd(id: &str, label: &str, category: Option<&str>, owner: &str) -> CommandInfo {
    CommandInfo {
        id: id.to_string(),
        label: label.to_string(),
        category: category.map(|s| s.to_string()),
        owner: owner.to_string(),
        keybinding: None,
        when: None,
    }
}

#[test]
fn builtin_commands_are_registered() {
    let reg = CommandRegistry::new();
    assert_eq!(reg.get_all_commands().len(), 21);
    let save = reg.get_command("file.save").unwrap();
    assert_eq!(save.label, "File: Save");
    assert_eq!(save.keybinding.as_deref(), Some("Ctrl+S"));
    assert!(reg.get_command("nope").is_none());
}

#[test]
fn search_orders_exact_then_prefix_then_label() {
    let mut reg = CommandRegistry::new();
    reg.register_command(cmd("x.find", "Find", None, "ext")).unwrap();
    reg.register_command(cmd("x.findall", "Find All", None, "ext")).unwrap();
    let labels: Vec<String> = reg.search_commands("FIND").into_iter().map(|c| c.label).collect();
    assert_eq!(labels, vec!["Find", "Find All", "Edit: Find", "Edit: Replace", "Search: Find in Files"]);
}

#[test]
fn search_matches_ids_and_categories() {
    let reg = CommandRegistry::new();
    let ids: Vec<String> = reg.search_commands("preferences").into_iter().map(|c| c.id).collect();
    assert_eq!(ids, vec!["workbench.action.openSettings"]);
    assert!(reg.search_commands("zzzz-no-match").is_empty());
}

#[test]
fn only_the_owner_unregisters() {
    let mut reg = CommandRegistry::new();
    reg.register_command(cmd("ext.hello", "Hello", None, "ext.a")).unwrap();
    let err = reg.unregister_command("ext.hello", "ext.b").unwrap_err();
    assert_eq!(err, "Cannot unregister command 'ext.hello': owned by 'ext.a', not 'ext.b'");
    assert_eq!(reg.unregister_command("missing", "ext.a").unwrap_err(), "Command 'missing' not found");
    assert!(reg.unregister_command("ext.hello", "ext.a").is_ok());
    assert!(reg.get_command("ext.hello").is_none());
}

#[test]
fn clearing_an_owner_keeps_builtins() {
    let mut reg = CommandRegistry::new();
    reg.register_command(cmd("ext.one", "One", None, "ext")).unwrap();
    reg.clear_commands_by_owner("ext");
    assert_eq!(reg.get_all_commands().len(), 21);
}

#[test]
fn registry_gives_back_what_was_registered() {
    let mut reg = CommandRegistry::new();
    reg.register_command(cmd("ext.one", "One", Some("Tools"), "ext")).unwrap();
    reg.register_command(cmd("other.two", "Two", None, "other")).unwrap();
    let got = reg.get_command("ext.one").unwrap();
    assert_eq!(got.label, "One");
    assert_eq!(got.category.as_deref(), Some("Tools"));
    reg.clear_commands_by_owner("ext");
    assert!(reg.get_command("ext.one").is_none());
    assert_eq!(reg.get_command("other.two").unwrap().label, "Two");
    assert_eq!(reg.get_command("file.save").unwrap().owner, "__builtin__");
}
