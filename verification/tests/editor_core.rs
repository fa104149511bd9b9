use dscode::editor_core::{SyntaxParser, TextBuffer};
use dscode::provider_calls::{completion_payload, default_ext_host, position_payload};
use dscode::json::{json_equal, JsonNumber, JsonValue};

fn conv(v: &serde_json::Value) -> JsonValue {
    match v {
        serde_json::Value::Null => JsonValue::Null,
        serde_json::Value::Bool(b) => JsonValue::Bool(*b),
        serde_json::Value::Number(n) => match n.as_u64() {
            Some(u) => JsonValue::Number(JsonNumber::PosInt(u)),
            None => JsonValue::Number(JsonNumber::NegInt(n.as_i64().unwrap())),
        },
        serde_json::Value::String(s) => JsonValue::Str(s.clone()),
        serde_json::Value::Array(items) => JsonValue::Array(items.iter().map(conv).collect()),
        serde_json::Value::Object(m) => JsonValue::Object(m.iter().map(|(k, x)| (k.clone(), conv(x))).collect()),
    }
}

#[test]
fn text_buffers_hold_their_text() {
    let b = TextBuffer::new("héllo\nworld");
    assert_eq!(b.get_text(), "héllo\nworld");
    assert_eq!(b.len_chars(), 11);
    assert_eq!(TextBuffer::new("").len_chars(), 0);
}

#[test]
fn the_syntax_parser_gives_no_tokens_yet() {
    let p = SyntaxParser::new();
    assert!(p.parse("fn main() {}", "rust").is_empty());
}

#[test]
fn provider_payloads_match_the_host_protocol() {
    assert_eq!(default_ext_host(), "global");
    let p = position_payload("rust", "file:///a.rs", 3, 7);
    let expected = conv(
        &serde_json::from_str::<serde_json::Value>(
            r#"{"languageId":"rust","document":{"uri":"file:///a.rs","languageId":"rust"},"position":{"line":3,"character":7}}"#,
        )
        .unwrap(),
    );
    assert!(json_equal(&p, &expected));
    let c = completion_payload("rust", "u", 0, 0, Some(".".to_string()));
    let ctx = c.get("context").unwrap();
    assert!(json_equal(ctx.get("triggerCharacter").unwrap(), &JsonValue::Str(".".to_string())));
    assert!(json_equal(ctx.get("triggerKind").unwrap(), &JsonValue::Number(JsonNumber::PosInt(2))));
    let c1 = completion_payload("rust", "u", 0, 0, None);
    let ctx1 = c1.get("context").unwrap();
    assert!(json_equal(ctx1.get("triggerCharacter").unwrap(), &JsonValue::Null));
    assert!(json_equal(ctx1.get("triggerKind").unwrap(), &JsonValue::Number(JsonNumber::PosInt(1))));
}
