use dscode::json::{json_equal, JsonNumber, JsonValue};
use dscode::render::u64_text;
use dscode::text::replace_all;

#[test]
fn integers_render_in_decimal() {
    assert_eq!(u64_text(0), "0");
    assert_eq!(u64_text(1234567890), "1234567890");
}

#[test]
fn json_equality_is_structural() {
    let a = JsonValue::Object(vec![("a".to_string(), JsonValue::Array(vec![JsonValue::Null]))]);
    let b = JsonValue::Object(vec![("a".to_string(), JsonValue::Array(vec![JsonValue::Null]))]);
    let c = JsonValue::Object(vec![("a".to_string(), JsonValue::Array(vec![]))]);
    assert!(json_equal(&a, &b));
    assert!(!json_equal(&a, &c));
    assert_eq!(a.get("a").map(|v| v.value_type()), Some("array"));
    assert!(a.get("b").is_none());
}

#[test]
fn replace_scans_left_to_right_without_overlap() {
    assert_eq!(replace_all("aaa", "aa", "b"), "ba");
    assert_eq!(replace_all("a b c", " ", "+"), "a+b+c");
    assert_eq!(replace_all("", "x", "y"), "");
}
