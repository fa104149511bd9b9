//! Calls into the extension host for language features: the payload each
//! request carries, and the shapes of the results it answers with.
use vstd::prelude::*;
use crate::json::{JsonNumber, JsonNumberView, JsonValue, JsonView, lemma_view_object, lemma_view_array, member_views, array_views};
use crate::text::owned;

verus! {

/// A position in a document, as providers give it.
pub struct Position {
    pub line: u32,
    pub character: u32,
}

/// A range in a document, as providers give it.
pub struct Range {
    pub start: Position,
    pub end: Position,
}

/// A symbol of a document, with the symbols nested in it.
pub struct DocumentSymbolResult {
    pub name: String,
    pub detail: String,
    pub kind: u32,
    pub range: Range,
    pub selection_range: Range,
    pub children: Vec<DocumentSymbolResult>,
}

/// An edit a formatter proposes.
pub struct TextEditResult {
    pub range: Range,
    pub new_text: String,
}

/// The extension host the editor's requests go to.
pub open spec fn default_ext_host_id() -> Seq<char> {
    "global"@
}

pub fn default_ext_host() -> (r: String)
    ensures
        r@ == default_ext_host_id(),
{
    owned("global")
}

pub open spec fn uint_json(n: u32) -> JsonView {
    JsonView::Number(JsonNumberView::PosInt(n as u64))
}

/// The document a request is about.
pub open spec fn document_json(language_id: Seq<char>, uri: Seq<char>) -> JsonView {
    JsonView::Object(seq![("languageId"@, JsonView::Str(language_id)), ("uri"@, JsonView::Str(uri))])
}

/// A position a request is about.
pub open spec fn position_json(line: u32, character: u32) -> JsonView {
    JsonView::Object(seq![("character"@, uint_json(character)), ("line"@, uint_json(line))])
}

fn uint_value(n: u32) -> (r: JsonValue)
    ensures
        r@ == uint_json(n),
{
    JsonValue::Number(JsonNumber::PosInt(n as u64))
}

fn object(members: Vec<(String, JsonValue)>) -> (r: JsonValue)
    ensures
        r@ == JsonView::Object(member_views(members@)),
{
    let r = JsonValue::Object(members);
    proof {
        lemma_view_object(members);
    }
    r
}

fn document_value(language_id: &str, uri: &str) -> (r: JsonValue)
    ensures
        r@ == document_json(language_id@, uri@),
{
    let members = vec![
        (owned("languageId"), JsonValue::Str(owned(language_id))),
        (owned("uri"), JsonValue::Str(owned(uri))),
    ];
    let r = object(members);
    assert(member_views(members@) =~= document_json(language_id@, uri@)->Object_0);
    r
}

fn position_value(line: u32, character: u32) -> (r: JsonValue)
    ensures
        r@ == position_json(line, character),
{
    let members = vec![(owned("character"), uint_value(character)), (owned("line"), uint_value(line))];
    let r = object(members);
    assert(member_views(members@) =~= position_json(line, character)->Object_0);
    r
}

/// The payload of a request about a position in a document (hover,
/// definition): its members in key order.
pub open spec fn position_payload_spec(language_id: Seq<char>, uri: Seq<char>, line: u32, character: u32) -> JsonView {
    JsonView::Object(seq![
        ("document"@, document_json(language_id, uri)),
        ("languageId"@, JsonView::Str(language_id)),
        ("position"@, position_json(line, character)),
    ])
}

/// The payload of a hover or definition request.
pub fn position_payload(language_id: &str, uri: &str, line: u32, character: u32) -> (r: JsonValue)
    ensures
        r@ == position_payload_spec(language_id@, uri@, line, character),
{
    let members = vec![
        (owned("document"), document_value(language_id, uri)),
        (owned("languageId"), JsonValue::Str(owned(language_id))),
        (owned("position"), position_value(line, character)),
    ];
    let r = object(members);
    assert(member_views(members@) =~= position_payload_spec(language_id@, uri@, line, character)->Object_0);
    r
}

/// The payload of a references request.
pub fn references_payload(language_id: &str, uri: &str, line: u32, character: u32, include_declaration: bool) -> (r: JsonValue)
    ensures
        r@ == JsonView::Object(seq![
            ("document"@, document_json(language_id@, uri@)),
            ("includeDeclaration"@, JsonView::Bool(include_declaration)),
            ("languageId"@, JsonView::Str(language_id@)),
            ("position"@, position_json(line, character)),
        ]),
{
    let members = vec![
        (owned("document"), document_value(language_id, uri)),
        (owned("includeDeclaration"), JsonValue::Bool(include_declaration)),
        (owned("languageId"), JsonValue::Str(owned(language_id))),
        (owned("position"), position_value(line, character)),
    ];
    let r = object(members);
    assert(member_views(members@) =~= seq![
        ("document"@, document_json(language_id@, uri@)),
        ("includeDeclaration"@, JsonView::Bool(include_declaration)),
        ("languageId"@, JsonView::Str(language_id@)),
        ("position"@, position_json(line, character)),
    ]);
    r
}

/// The payload of a code actions request.
pub fn code_actions_payload(
    language_id: &str,
    uri: &str,
    start_line: u32,
    start_character: u32,
    end_line: u32,
    end_character: u32,
    diagnostics: Vec<JsonValue>,
) -> (r: JsonValue)
    ensures
        r@ == JsonView::Object(seq![
            ("diagnostics"@, JsonView::Array(array_views(diagnostics@))),
            ("document"@, document_json(language_id@, uri@)),
            ("languageId"@, JsonView::Str(language_id@)),
            ("range"@, JsonView::Object(seq![
                ("end"@, position_json(end_line, end_character)),
                ("start"@, position_json(start_line, start_character)),
            ])),
        ]),
{
    let ghost dv = array_views(diagnostics@);
    let diags = JsonValue::Array(diagnostics);
    proof {
        lemma_view_array(diagnostics);
    }
    let range_members = vec![
        (owned("end"), position_value(end_line, end_character)),
        (owned("start"), position_value(start_line, start_character)),
    ];
    let range = object(range_members);
    assert(member_views(range_members@) =~= seq![
        ("end"@, position_json(end_line, end_character)),
        ("start"@, position_json(start_line, start_character)),
    ]);
    let members = vec![
        (owned("diagnostics"), diags),
        (owned("document"), document_value(language_id, uri)),
        (owned("languageId"), JsonValue::Str(owned(language_id))),
        (owned("range"), range),
    ];
    let r = object(members);
    assert(member_views(members@) =~= seq![
        ("diagnostics"@, JsonView::Array(dv)),
        ("document"@, document_json(language_id@, uri@)),
        ("languageId"@, JsonView::Str(language_id@)),
        ("range"@, JsonView::Object(seq![
            ("end"@, position_json(end_line, end_character)),
            ("start"@, position_json(start_line, start_character)),
        ])),
    ]);
    r
}

/// The payload of a document symbols request.
pub fn document_symbols_payload(language_id: &str, uri: &str) -> (r: JsonValue)
    ensures
        r@ == JsonView::Object(seq![
            ("document"@, document_json(language_id@, uri@)),
            ("languageId"@, JsonView::Str(language_id@)),
        ]),
{
    let members = vec![
        (owned("document"), document_value(language_id, uri)),
        (owned("languageId"), JsonValue::Str(owned(language_id))),
    ];
    let r = object(members);
    assert(member_views(members@) =~= seq![
        ("document"@, document_json(language_id@, uri@)),
        ("languageId"@, JsonView::Str(language_id@)),
    ]);
    r
}

/// The payload of a document formatting request.
pub fn formatting_payload(language_id: &str, uri: &str, tab_size: u32, insert_spaces: bool) -> (r: JsonValue)
    ensures
        r@ == JsonView::Object(seq![
            ("document"@, document_json(language_id@, uri@)),
            ("languageId"@, JsonView::Str(language_id@)),
            ("options"@, JsonView::Object(seq![
                ("insertSpaces"@, JsonView::Bool(insert_spaces)),
                ("tabSize"@, uint_json(tab_size)),
            ])),
        ]),
{
    let option_members = vec![
        (owned("insertSpaces"), JsonValue::Bool(insert_spaces)),
        (owned("tabSize"), uint_value(tab_size)),
    ];
    let options = object(option_members);
    assert(member_views(option_members@) =~= seq![
        ("insertSpaces"@, JsonView::Bool(insert_spaces)),
        ("tabSize"@, uint_json(tab_size)),
    ]);
    let members = vec![
        (owned("document"), document_value(language_id, uri)),
        (owned("languageId"), JsonValue::Str(owned(language_id))),
        (owned("options"), options),
    ];
    let r = object(members);
    assert(member_views(members@) =~= seq![
        ("document"@, document_json(language_id@, uri@)),
        ("languageId"@, JsonView::Str(language_id@)),
        ("options"@, JsonView::Object(seq![
            ("insertSpaces"@, JsonView::Bool(insert_spaces)),
            ("tabSize"@, uint_json(tab_size)),
        ])),
    ]);
    r
}

/// The completion context: triggered by a character (kind 2) or invoked (kind 1).
pub open spec fn completion_context_json(trigger_character: Option<Seq<char>>) -> JsonView {
    JsonView::Object(seq![
        ("triggerCharacter"@, match trigger_character {
            Some(c) => JsonView::Str(c),
            None => JsonView::Null,
        }),
        ("triggerKind"@, uint_json(if trigger_character is Some { 2 } else { 1 })),
    ])
}

/// The payload of a completion request.
pub fn completion_payload(
    language_id: &str,
    uri: &str,
    line: u32,
    character: u32,
    trigger_character: Option<String>,
) -> (r: JsonValue)
    ensures
        r@ == JsonView::Object(seq![
            ("context"@, completion_context_json(crate::text::opt_view(trigger_character))),
            ("document"@, document_json(language_id@, uri@)),
            ("languageId"@, JsonView::Str(language_id@)),
            ("position"@, position_json(line, character)),
        ]),
{
    let ghost tc = crate::text::opt_view(trigger_character);
    let kind: u32 = if trigger_character.is_some() { 2 } else { 1 };
    let trigger = match trigger_character {
        Some(c) => JsonValue::Str(c),
        None => JsonValue::Null,
    };
    let context_members = vec![(owned("triggerCharacter"), trigger), (owned("triggerKind"), uint_value(kind))];
    let context = object(context_members);
    assert(member_views(context_members@) =~= completion_context_json(tc)->Object_0);
    let members = vec![
        (owned("context"), context),
        (owned("document"), document_value(language_id, uri)),
        (owned("languageId"), JsonValue::Str(owned(language_id))),
        (owned("position"), position_value(line, character)),
    ];
    let r = object(members);
    assert(member_views(members@) =~= seq![
        ("context"@, completion_context_json(tc)),
        ("document"@, document_json(language_id@, uri@)),
        ("languageId"@, JsonView::Str(language_id@)),
        ("position"@, position_json(line, character)),
    ]);
    r
}

/// The payload of the event that activates extensions for a language.
pub fn language_activation_payload(language_id: &str) -> (r: JsonValue)
    ensures
        r@ == JsonView::Object(seq![("languageId"@, JsonView::Str(language_id@))]),
{
    let members = vec![(owned("languageId"), JsonValue::Str(owned(language_id)))];
    let r = object(members);
    assert(member_views(members@) =~= seq![("languageId"@, JsonView::Str(language_id@))]);
    r
}

} // verus!
