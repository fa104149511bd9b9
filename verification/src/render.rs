//! Writing numbers in decimal, and lists of JSON values as `serde_json`'s
//! `Debug` writes them.
use vstd::prelude::*;
use crate::json::{JsonNumber, JsonValue, JsonView, array_views};
use crate::text::push_char;
use serde_json::Value;

verus! {

/// The decimal digit for `d`.
pub open spec fn digit_char(d: int) -> char {
    if d == 0 { '0' } else if d == 1 { '1' } else if d == 2 { '2' } else if d == 3 { '3' } else if d == 4 {
        '4'
    } else if d == 5 { '5' } else if d == 6 { '6' } else if d == 7 { '7' } else if d == 8 { '8' } else {
        '9'
    }
}

/// `n` written in decimal, without leading zeros.
pub open spec fn decimal(n: nat) -> Seq<char>
    decreases n,
{
    if n < 10 {
        seq![digit_char(n as int)]
    } else {
        decimal(n / 10).push(digit_char((n % 10) as int))
    }
}

fn digit(d: u64) -> (c: char)
    requires
        d < 10,
    ensures
        c == digit_char(d as int),
{
    if d == 0 { '0' } else if d == 1 { '1' } else if d == 2 { '2' } else if d == 3 { '3' } else if d == 4 {
        '4'
    } else if d == 5 { '5' } else if d == 6 { '6' } else if d == 7 { '7' } else if d == 8 { '8' } else {
        '9'
    }
}

/// `n` in decimal (as `u64`'s `Display` writes it).
pub fn u64_text(n: u64) -> (r: String)
    ensures
        r@ == decimal(n as nat),
    decreases n,
{
    if n < 10 {
        let mut s = String::new();
        push_char(&mut s, digit(n));
        assert(s@ =~= seq![digit_char(n as int)]);
        s
    } else {
        let mut s = u64_text(n / 10);
        push_char(&mut s, digit(n % 10));
        s
    }
}

#[verifier::external_type_specification]
#[verifier::external_body]
pub struct ExSerdeValue(serde_json::Value);

/// What `format!("{:?}", v)` writes for a `Vec` of `serde_json::Value`s
/// holding `items`.
pub uninterp spec fn serde_debug_list(items: Seq<JsonView>) -> Seq<char>;

/// The `serde_json::Value` a JSON value stands for, built with the crate's
/// constructors (a decimal through `serde_json::Number`'s parser); used only
/// by [`debug_list`], which states what comes out.
#[verifier::external_body]
fn serde_value(v: &JsonValue) -> Value {
    match v {
        JsonValue::Null => Value::Null,
        JsonValue::Bool(b) => Value::Bool(*b),
        JsonValue::Number(JsonNumber::PosInt(u)) => Value::from(*u),
        JsonValue::Number(JsonNumber::NegInt(i)) => Value::from(*i),
        JsonValue::Number(JsonNumber::Float(t)) => t.parse().map(Value::Number).unwrap_or(Value::Null),
        JsonValue::Str(s) => Value::String(s.clone()),
        JsonValue::Array(items) => Value::Array(items.iter().map(serde_value).collect()),
        JsonValue::Object(m) => Value::Object(m.iter().map(|(k, x)| (k.clone(), serde_value(x))).collect()),
    }
}

/// A list of JSON values as `serde_json`'s `Debug` writes a `Vec` of them
/// (`format!("{:?}", values)`); the text is named, not described.
#[verifier::external_body]
pub(crate) fn debug_list(items: &Vec<JsonValue>) -> (r: String)
    ensures
        r@ == serde_debug_list(array_views(items@)),
{
    format!("{:?}", items.iter().map(serde_value).collect::<Vec<Value>>())
}

} // verus!
