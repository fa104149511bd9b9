use dscode::textdocument::{
    CoreError, CursorStyle, DecorationRenderOptions, DecorationType, LineNumbersStyle, Position, Range, Selection,
    TextDocument, TextDocumentRegistry, TextEditor, TextEditorOptions,
};

fn doc(uri: &str) -> TextDocument {
    TextDocument { uri: uri.to_string(), language_id: "rust".to_string(), version: 1, line_count: 10, is_untitled: false, is_dirty: true }
}

fn range(a: u32, b: u32) -> Range {
    Range { start: Position { line: a, character: 0 }, end: Position { line: b, character: 0 } }
}

fn options() -> DecorationRenderOptions {
    DecorationRenderOptions {
        background_color: Some("red".to_string()),
        border: None,
        border_color: None,
        border_radius: None,
        border_width: None,
        color: None,
        cursor: None,
        text_decoration: None,
        outline: None,
        outline_color: None,
        outline_width: None,
    }
}

fn message(e: CoreError) -> String {
    match e {
        CoreError::Io(m) | CoreError::Config(m) => m,
    }
}

#[test]
fn documents_are_updated_and_saved() {
    let mut reg = TextDocumentRegistry::new();
    reg.register_text_document(doc("file:///a.rs")).unwrap();
    let ev = reg.update_text_document("file:///a.rs", 7, vec![]).ok().unwrap();
    assert_eq!(ev.document.version, 7);
    assert_eq!(reg.get_text_document("file:///a.rs").ok().unwrap().version, 7);
    reg.mark_document_saved("file:///a.rs").ok().unwrap();
    assert!(!reg.get_text_document("file:///a.rs").ok().unwrap().is_dirty);
    let err = reg.update_text_document("file:///b.rs", 1, vec![]).err().unwrap();
    assert_eq!(message(err), "Text document not found: file:///b.rs");
    reg.unregister_text_document("file:///a.rs").ok().unwrap();
    assert!(reg.get_all_text_documents().is_empty());
}

#[test]
fn editors_track_selections() {
    let mut reg = TextDocumentRegistry::new();
    let editor = TextEditor {
        id: "e1".to_string(),
        document: doc("file:///a.rs"),
        selections: vec![],
        visible_ranges: vec![],
        options: TextEditorOptions { tab_size: 4, insert_spaces: true, cursor_style: CursorStyle::Line, line_numbers: LineNumbersStyle::On },
    };
    reg.register_text_editor(editor).ok().unwrap();
    let sel = Selection { anchor: Position { line: 1, character: 2 }, active: Position { line: 1, character: 5 } };
    reg.update_editor_selections("e1", vec![sel]).ok().unwrap();
    assert_eq!(reg.get_text_editor("e1").ok().unwrap().selections, vec![sel]);
    reg.update_editor_visible_ranges("e1", vec![range(0, 20)]).ok().unwrap();
    assert_eq!(reg.get_text_editor("e1").ok().unwrap().visible_ranges.len(), 1);
    assert!(reg.update_editor_selections("e9", vec![]).is_err());
}

#[test]
fn decorations_replace_per_type_and_go_with_it() {
    let mut reg = TextDocumentRegistry::new();
    let id = reg
        .create_decoration_type(DecorationType { id: "hl".to_string(), owner: "ext".to_string(), options: options() })
        .ok()
        .unwrap();
    assert_eq!(id, "hl");
    reg.set_editor_decorations("e1", "hl", vec![range(1, 2)], "ext").ok().unwrap();
    reg.set_editor_decorations("e1", "hl", vec![range(3, 4), range(5, 6)], "ext").ok().unwrap();
    let d = reg.get_editor_decorations("e1");
    assert_eq!(d.len(), 1);
    assert_eq!(d[0].ranges.len(), 2);
    assert_eq!(d[0].id, "hl:e1");
    reg.set_editor_decorations("e1", "hl", vec![], "ext").ok().unwrap();
    assert!(reg.get_editor_decorations("e1").is_empty());
    reg.set_editor_decorations("e1", "hl", vec![range(1, 1)], "ext").ok().unwrap();
    reg.dispose_decoration_type("hl").ok().unwrap();
    assert!(reg.get_editor_decorations("e1").is_empty());
    let err = reg.dispose_decoration_type("hl").err().unwrap();
    assert_eq!(message(err), "Decoration type not found: hl");
}
