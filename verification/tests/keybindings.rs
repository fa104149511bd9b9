use dscode::keybindings::{Keybinding, KeybindingRegistry};

fn binding(command: &str, key: &str, when: Option<&str>, platform: Option<&str>, owner: &str) -> Keybinding {
    Keybinding {
        command: command.to_string(),
        key: key.to_string(),
        when: when.map(|s| s.to_string()),
        platform: platform.map(|s| s.to_string()),
        owner: owner.to_string(),
        args: None,
    }
}

#[test]
fn test_normalize_key() {
    assert_eq!(Keybinding::normalize_key("Ctrl+S"), "ctrl+s");
    assert_eq!(Keybinding::normalize_key("Cmd+Shift+P"), "cmd+shift+p");
    assert_eq!(Keybinding::normalize_key("Control+Alt+Delete"), "ctrl+alt+delete");
}

#[test]
fn test_platform_key() {
    let kb = Keybinding {
        command: "test".to_string(),
        key: "Ctrl+S".to_string(),
        when: None,
        platform: None,
        owner: "test".to_string(),
        args: None,
    };

    assert_eq!(kb.platform_key("macos"), "Cmd+S");
    assert_eq!(kb.platform_key("windows"), "Ctrl+S");
}

#[test]
fn normalize_handles_spaces_and_long_names() {
    assert_eq!(Keybinding::normalize_key("Command K Command S"), "cmd+k+cmd+s");
    assert_eq!(Keybinding::normalize_key("Option+Meta+X"), "alt+cmd+x");
}

#[test]
fn platform_key_leaves_other_platforms_alone() {
    let kb = binding("x", "Cmd+K Cmd+S", None, None, "t");
    assert_eq!(kb.platform_key("linux"), "Ctrl+K Ctrl+S");
    assert_eq!(kb.platform_key("beos"), "Cmd+K Cmd+S");
}

#[test]
fn builtins_use_the_platform_modifier() {
    let linux = KeybindingRegistry::new("linux".to_string());
    let save = linux.get_keybindings_for_key("ctrl+s");
    assert_eq!(save.len(), 1);
    assert_eq!(save[0].command, "file.save");
    let mac = KeybindingRegistry::new("macos".to_string());
    assert_eq!(mac.get_keybindings_for_key("Cmd+S")[0].command, "file.save");
    assert!(mac.get_keybindings_for_key("Ctrl+S").is_empty());
    assert_eq!(linux.get_all_keybindings().len(), 21);
    assert_eq!(linux.get_platform(), "linux");
}

#[test]
fn same_command_and_when_replaces_the_binding() {
    let mut reg = KeybindingRegistry::new("linux".to_string());
    reg.register_keybinding(binding("my.cmd", "Ctrl+Alt+Q", Some("a"), None, "ext.one")).unwrap();
    reg.register_keybinding(binding("my.cmd", "ctrl+alt+q", Some("a"), None, "ext.two")).unwrap();
    let found = reg.get_keybindings_for_key("CTRL+ALT+Q");
    assert_eq!(found.len(), 1);
    assert_eq!(found[0].owner, "ext.two");
    reg.register_keybinding(binding("other.cmd", "Ctrl+Alt+Q", None, None, "ext.one")).unwrap();
    assert_eq!(reg.get_keybindings_for_key("ctrl+alt+q").len(), 2);
    assert_eq!(reg.get_keybindings_for_command("other.cmd").len(), 1);
}

#[test]
fn bindings_for_other_platforms_are_skipped() {
    let mut reg = KeybindingRegistry::new("linux".to_string());
    reg.register_keybinding(binding("mac.only", "Cmd+Y", None, Some("MacOS"), "ext")).unwrap();
    assert!(reg.get_keybindings_for_key("cmd+y").is_empty());
    reg.register_keybinding(binding("linux.only", "Ctrl+Y", None, Some("LINUX"), "ext")).unwrap();
    assert_eq!(reg.get_keybindings_for_key("ctrl+y").len(), 1);
}

#[test]
fn clearing_an_owner_drops_empty_keys() {
    let mut reg = KeybindingRegistry::new("linux".to_string());
    reg.register_keybindings(vec![binding("a", "Ctrl+1", None, None, "ext"), binding("b", "Ctrl+2", None, None, "ext")])
        .unwrap();
    assert_eq!(reg.get_all_keybindings().len(), 23);
    reg.clear_keybindings_by_owner("ext");
    assert_eq!(reg.get_all_keybindings().len(), 21);
    assert!(reg.get_keybindings_for_key("ctrl+1").is_empty());
}
