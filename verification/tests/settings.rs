use dscode::configuration::{
    validate_value, ConfigurationContribution, ConfigurationRegistry, ConfigurationSchema, ConfigurationScope,
};
use dscode::json::{JsonNumber, JsonValue};
use dscode::settings::{
    check_value, EnumValue, LimitCheck, SettingScope, SettingUISchema, SettingUIType, SettingsCategory, SettingsUIRegistry,
};
use dscode::textdocument::CoreError;

fn n(v: u64) -> JsonValue {
    JsonValue::Number(JsonNumber::PosInt(v))
}

fn s(v: &str) -> JsonValue {
    JsonValue::Str(v.to_string())
}

fn schema(key: &str, ty: &str, default: JsonValue, enum_values: Option<Vec<JsonValue>>) -> ConfigurationSchema {
    ConfigurationSchema {
        key: key.to_string(),
        scope: ConfigurationScope::User,
        value_type: ty.to_string(),
        default,
        description: String::new(),
        enum_values,
    }
}

fn message(e: CoreError) -> String {
    match e {
        CoreError::Io(m) | CoreError::Config(m) => m,
    }
}

fn ui(title: &str, ui_type: SettingUIType, category: &str, tags: Vec<&str>) -> SettingUISchema {
    SettingUISchema {
        title: title.to_string(),
        description: None,
        ui_type,
        default: JsonValue::Null,
        category: category.to_string(),
        order: 0,
        tags: tags.into_iter().map(|t| t.to_string()).collect(),
        scope: SettingScope::Window,
        deprecated: false,
        deprecation_message: None,
    }
}

#[test]
fn values_are_checked_against_their_schema() {
    let sch = schema("editor.tabSize", "number", n(4), None);
    assert!(validate_value(&n(2), &sch).is_ok());
    assert_eq!(
        message(validate_value(&s("x"), &sch).err().unwrap()),
        "Invalid type for editor.tabSize: expected number, got string"
    );
    let e = schema("editor.mode", "string", s("a"), Some(vec![s("a"), s("b")]));
    assert_eq!(
        message(validate_value(&s("c"), &e).err().unwrap()),
        r#"Invalid value for editor.mode: must be one of [String("a"), String("b")]"#
    );
    assert!(validate_value(&s("anything"), &schema("x", "any", JsonValue::Null, None)).is_ok());
}

#[test]
fn lookups_fall_back_through_the_scopes_to_the_default() {
    let mut reg = ConfigurationRegistry::new();
    reg.register_configuration_schema(ConfigurationContribution {
        extension_id: "ext".to_string(),
        title: "Ext".to_string(),
        properties: vec![schema("ext.size", "number", n(10), None)],
    })
    .ok()
    .unwrap();
    assert!(matches!(reg.get_configuration_with_fallback("ext.size", ConfigurationScope::Workspace).ok().unwrap(), Some(JsonValue::Number(JsonNumber::PosInt(10)))));
    reg.update_configuration("ext.size".to_string(), n(12), ConfigurationScope::User).ok().unwrap();
    assert!(matches!(reg.get_configuration_with_fallback("ext.size", ConfigurationScope::WorkspaceFolder).ok().unwrap(), Some(JsonValue::Number(JsonNumber::PosInt(12)))));
    let ev = reg.update_configuration("ext.size".to_string(), n(14), ConfigurationScope::Workspace).ok().unwrap();
    assert_eq!(ev.affected_keys, vec!["ext.size"]);
    assert!(matches!(reg.get_configuration_with_fallback("ext.size", ConfigurationScope::WorkspaceFolder).ok().unwrap(), Some(JsonValue::Number(JsonNumber::PosInt(14)))));
    assert!(matches!(reg.get_configuration("ext.size", ConfigurationScope::User).ok().unwrap(), Some(JsonValue::Number(JsonNumber::PosInt(12)))));
    assert!(reg.update_configuration("ext.size".to_string(), s("big"), ConfigurationScope::User).is_err());
    assert!(reg.has_configuration("ext.size", ConfigurationScope::User));
    assert!(reg.get_configuration_with_fallback("none", ConfigurationScope::User).ok().unwrap().is_none());
}

#[test]
fn setting_values_fit_their_control() {
    assert!(check_value(&SettingUIType::Boolean, &JsonValue::Bool(true)).is_ok());
    assert_eq!(check_value(&SettingUIType::Boolean, &n(1)), Err("Value must be a boolean".to_string()));
    let pat = SettingUIType::String { pattern: Some("^[a-z]+$".to_string()), min_length: None, max_length: None };
    assert!(check_value(&pat, &s("abc")).is_ok());
    assert_eq!(check_value(&pat, &s("ABC")), Err("Value does not match pattern: ^[a-z]+$".to_string()));
    let bad = SettingUIType::String { pattern: Some("(".to_string()), min_length: None, max_length: None };
    assert!(check_value(&bad, &s("x")).err().unwrap().starts_with("Invalid pattern: "));
    let en = SettingUIType::Enum {
        values: vec![EnumValue { value: "on".to_string(), label: "On".to_string(), description: None }],
        allow_custom: None,
    };
    assert_eq!(check_value(&en, &s("off")), Err("Value must be one of the allowed values".to_string()));
    let arr = SettingUIType::Array { item_type: "number".to_string(), min_items: None, max_items: None };
    assert_eq!(check_value(&arr, &JsonValue::Array(vec![n(1), s("x")])), Err("Array items must be numbers".to_string()));
    assert_eq!(check_value(&SettingUIType::Object, &n(1)), Err("Value must be an object".to_string()));
}

#[test]
fn categories_sort_and_search_ranks_matches() {
    let mut reg = SettingsUIRegistry::new();
    let cat = |id: &str, order: i32| SettingsCategory {
        id: id.to_string(),
        title: id.to_string(),
        description: None,
        icon: None,
        order,
        owner: "ext".to_string(),
    };
    reg.register_category(cat("b", 2)).unwrap();
    reg.register_category(cat("a", 1)).unwrap();
    assert_eq!(reg.register_category(cat("a", 3)), Err("Category 'a' already registered".to_string()));
    let ids: Vec<String> = reg.get_categories().iter().map(|c| c.id.clone()).collect();
    assert_eq!(ids, vec!["a", "b"]);
    reg.register_ui_schema("editor.fontSize".to_string(), ui("Font Size", SettingUIType::Boolean, "editor", vec![])).unwrap();
    reg.register_ui_schema("window.zoom".to_string(), ui("Zoom", SettingUIType::Boolean, "window", vec!["font"])).unwrap();
    let hits = reg.search_settings("FONT");
    assert_eq!(hits.len(), 2);
    assert_eq!(hits[0].key, "editor.fontSize");
    assert_eq!(hits[0].score, 150);
    assert_eq!(hits[1].score, 5);
    assert_eq!(reg.validate_setting("nope", &n(1), LimitCheck::Within), Err("Setting 'nope' not found".to_string()));
}

#[test]
fn numbers_outside_their_limits_are_refused() {
    let mut reg = SettingsUIRegistry::new();
    let limited = SettingUIType::Number {
        min: Some(JsonNumber::PosInt(5)),
        max: Some(JsonNumber::PosInt(10)),
        step: None,
    };
    reg.register_ui_schema("editor.tabSize".to_string(), ui("Tab Size", limited, "editor", vec![])).unwrap();
    let open = SettingUIType::Number { min: None, max: None, step: None };
    reg.register_ui_schema("editor.any".to_string(), ui("Any", open, "editor", vec![])).unwrap();
    assert_eq!(
        reg.validate_setting("editor.tabSize", &n(1), LimitCheck::BelowMin("5".to_string())),
        Err("Value must be >= 5".to_string())
    );
    assert_eq!(
        reg.validate_setting("editor.tabSize", &n(12), LimitCheck::AboveMax("10".to_string())),
        Err("Value must be <= 10".to_string())
    );
    assert_eq!(reg.validate_setting("editor.tabSize", &n(7), LimitCheck::Within), Ok(()));
    assert_eq!(
        reg.validate_setting("editor.tabSize", &s("7"), LimitCheck::Within),
        Err("Value must be a number".to_string())
    );
    assert_eq!(reg.validate_setting("editor.any", &n(1), LimitCheck::BelowMin("5".to_string())), Ok(()));
}

#[test]
fn allowed_values_are_listed_as_serde_json_debugs_them() {
    let vals = vec![
        s("a\"b"),
        JsonValue::Number(JsonNumber::NegInt(-2)),
        JsonValue::Number(JsonNumber::Float("2.5".to_string())),
        JsonValue::Array(vec![JsonValue::Bool(true), JsonValue::Null]),
        JsonValue::Object(vec![("k".to_string(), n(1))]),
    ];
    let mut map = serde_json::Map::new();
    map.insert("k".to_string(), serde_json::Value::from(1));
    let theirs = vec![
        serde_json::Value::from("a\"b"),
        serde_json::Value::from(-2),
        serde_json::Value::from(2.5),
        serde_json::Value::Array(vec![serde_json::Value::Bool(true), serde_json::Value::Null]),
        serde_json::Value::Object(map),
    ];
    let sch = schema("x.y", "any", JsonValue::Null, Some(vals));
    assert_eq!(
        message(validate_value(&n(9), &sch).err().unwrap()),
        format!("Invalid value for x.y: must be one of {:?}", theirs)
    );
}
