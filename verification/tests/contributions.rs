use dscode::contributions::{
    parse_and_register_extension_keybindings, parse_and_register_extension_menus, parse_command_contributions,
};
use dscode::json::{JsonNumber, JsonValue};
use dscode::keybindings::KeybindingRegistry;
use dscode::menus::MenuRegistry;

fn to_json(v: &serde_json::Value) -> JsonValue {
    match v {
        serde_json::Value::Null => JsonValue::Null,
        serde_json::Value::Bool(b) => JsonValue::Bool(*b),
        serde_json::Value::Number(n) => {
            if let Some(u) = n.as_u64() {
                JsonValue::Number(JsonNumber::PosInt(u))
            } else if let Some(i) = n.as_i64() {
                JsonValue::Number(JsonNumber::NegInt(i))
            } else {
                JsonValue::Number(JsonNumber::Float(n.to_string()))
            }
        }
        serde_json::Value::String(s) => JsonValue::Str(s.clone()),
        serde_json::Value::Array(a) => JsonValue::Array(a.iter().map(to_json).collect()),
        serde_json::Value::Object(m) => JsonValue::Object(m.iter().map(|(k, v)| (k.clone(), to_json(v))).collect()),
    }
}

fn parse(text: &str) -> JsonValue {
    to_json(&serde_json::from_str::<serde_json::Value>(text).unwrap())
}

#[test]
fn commands_are_read_with_titles_and_icons() {
    let pkg = parse(
        r#"{"contributes":{"commands":[
            {"command":"a.run","title":"Run","category":"A","icon":"play"},
            {"command":"a.dark","title":"Dark","icon":{"light":"l.svg","dark":"d.svg"}},
            {"command":"a.light","title":"Light","icon":{"light":"l.svg"}}
        ]}}"#,
    );
    let cs = parse_command_contributions(pkg).unwrap();
    assert_eq!(cs.len(), 3);
    assert_eq!(cs[0].command, "a.run");
    assert_eq!(cs[0].category.as_deref(), Some("A"));
    assert_eq!(cs[0].icon.as_deref(), Some("play"));
    assert_eq!(cs[1].icon.as_deref(), Some("d.svg"));
    assert_eq!(cs[2].icon.as_deref(), Some("l.svg"));
}

#[test]
fn command_errors_name_what_is_missing() {
    assert_eq!(
        parse_command_contributions(parse(r#"{"name":"x"}"#)).err().unwrap(),
        "No contributes section in package.json"
    );
    assert_eq!(parse_command_contributions(parse(r#"{"contributes":{}}"#)).unwrap().len(), 0);
    assert_eq!(
        parse_command_contributions(parse(r#"{"contributes":{"commands":{}}}"#)).err().unwrap(),
        "Commands must be an array"
    );
    assert_eq!(
        parse_command_contributions(parse(r#"{"contributes":{"commands":[1]}}"#)).err().unwrap(),
        "Command must be an object"
    );
    assert_eq!(
        parse_command_contributions(parse(r#"{"contributes":{"commands":[{"title":"T"}]}}"#)).err().unwrap(),
        "Command must have a command field"
    );
    assert_eq!(
        parse_command_contributions(parse(r#"{"contributes":{"commands":[{"command":"c"}]}}"#)).err().unwrap(),
        "Command must have a title"
    );
}

#[test]
fn keybindings_use_the_platform_key() {
    let mut reg = KeybindingRegistry::new("linux".to_string());
    let pkg = parse(
        r#"{"contributes":{"keybindings":[
            {"command":"ext.a","key":"ctrl+k","linux":"ctrl+alt+k","when":"editorFocus"},
            {"command":"ext.b","key":"ctrl+f14","mac":"cmd+f14","args":{"x":1}}
        ]}}"#,
    );
    assert_eq!(parse_and_register_extension_keybindings("ext".to_string(), pkg, &mut reg), Ok(2));
    let a = reg.get_keybindings_for_key("ctrl+alt+k");
    assert_eq!(a.len(), 1);
    assert_eq!(a[0].platform.as_deref(), Some("linux"));
    assert_eq!(a[0].owner, "ext");
    assert_eq!(a[0].when.as_deref(), Some("editorFocus"));
    let b = reg.get_keybindings_for_key("ctrl+f14");
    assert_eq!(b.len(), 1);
    assert!(b[0].platform.is_none());
    assert!(b[0].args.is_some());
}

#[test]
fn a_bad_keybinding_stops_after_the_good_ones() {
    let mut reg = KeybindingRegistry::new("windows".to_string());
    let pkg = parse(
        r#"{"contributes":{"keybindings":[{"command":"ok","key":"ctrl+f16"},{"command":"bad"},{"command":"late","key":"ctrl+f15"}]}}"#,
    );
    assert_eq!(
        parse_and_register_extension_keybindings("e".to_string(), pkg, &mut reg),
        Err("Keybinding must have a key".to_string())
    );
    assert_eq!(reg.get_keybindings_for_key("ctrl+f16").len(), 1);
    assert!(reg.get_keybindings_for_key("ctrl+f15").is_empty());
    let none = parse(r#"{"contributes":{}}"#);
    assert_eq!(parse_and_register_extension_keybindings("e".to_string(), none, &mut reg), Ok(0));
    let wrong = parse(r#"{"contributes":{"keybindings":{}}}"#);
    assert_eq!(
        parse_and_register_extension_keybindings("e".to_string(), wrong, &mut reg),
        Err("Keybindings must be an array".to_string())
    );
}

#[test]
fn menus_are_read_location_by_location() {
    let mut reg = MenuRegistry::new();
    let pkg = parse(
        r#"{"contributes":{"menus":{
            "editor/context":[{"command":"x.one","group":"1_a","icon":{"dark":"d"}},{"command":"x.two","title":"Two"}],
            "explorer/context":[{"command":"x.three","alt":"x.alt"}]
        }}}"#,
    );
    assert_eq!(parse_and_register_extension_menus("x".to_string(), pkg, &mut reg), Ok(3));
    let items = reg.get_menu_items("explorer/context");
    assert!(items.iter().any(|m| m.command == "x.three" && m.alt.as_deref() == Some("x.alt")));
    let editor = reg.get_menu_items("editor/context");
    let one = editor.iter().find(|m| m.command == "x.one").unwrap();
    assert_eq!(one.icon.as_deref(), Some("d"));
    assert_eq!(one.location.as_deref(), Some("editor/context"));
}

#[test]
fn menu_errors_carry_the_location() {
    let mut reg = MenuRegistry::new();
    let pkg = parse(r#"{"contributes":{"menus":{"a":[{"command":"ok"}],"b":{}}}}"#);
    assert_eq!(
        parse_and_register_extension_menus("x".to_string(), pkg, &mut reg),
        Err("Menu items for b must be an array".to_string())
    );
    assert_eq!(reg.get_menu_items("a").len(), 1);
    let pkg = parse(r#"{"contributes":{"menus":[]}}"#);
    assert_eq!(
        parse_and_register_extension_menus("x".to_string(), pkg, &mut reg),
        Err("Menus must be an object".to_string())
    );
    let pkg = parse(r#"{"contributes":{"menus":{"a":[{"title":"t"}]}}}"#);
    assert_eq!(
        parse_and_register_extension_menus("x".to_string(), pkg, &mut reg),
        Err("Menu item must have a command".to_string())
    );
    let pkg = parse(r#"{"contributes":{"menus":{"a":["s"]}}}"#);
    assert_eq!(
        parse_and_register_extension_menus("x".to_string(), pkg, &mut reg),
        Err("Menu item must be an object".to_string())
    );
}
