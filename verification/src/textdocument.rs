//! Open text documents and editors, and the decorations extensions draw in them.
use vstd::prelude::*;
use crate::store::{Duplicate, Store, views, duplicate_all, lookup, store_insert, store_remove, distinct_keys, values_of};
use crate::text::{clone_opt, concat, join_with, str_eq};

verus! {

/// Errors of the document registry.
#[derive(Debug)]
pub enum CoreError {
    Io(String),
    Config(String),
}

/// An open text document.
pub struct TextDocument {
    pub uri: String,
    pub language_id: String,
    pub version: u64,
    pub line_count: usize,
    pub is_untitled: bool,
    pub is_dirty: bool,
}

/// An editor showing a document.
pub struct TextEditor {
    pub id: String,
    pub document: TextDocument,
    pub selections: Vec<Selection>,
    pub visible_ranges: Vec<Range>,
    pub options: TextEditorOptions,
}

/// Mathematical form of a [`TextEditor`].
pub struct TextEditorView {
    pub id: Seq<char>,
    pub document: TextDocument,
    pub selections: Seq<Selection>,
    pub visible_ranges: Seq<Range>,
    pub options: TextEditorOptions,
}

#[derive(Clone, Copy, Debug, PartialEq, Eq, Structural)]
pub struct TextEditorOptions {
    pub tab_size: u32,
    pub insert_spaces: bool,
    pub cursor_style: CursorStyle,
    pub line_numbers: LineNumbersStyle,
}

#[derive(Clone, Copy, Debug, PartialEq, Eq, Structural)]
pub enum CursorStyle {
    Line,
    Block,
    Underline,
}

#[derive(Clone, Copy, Debug, PartialEq, Eq, Structural)]
pub enum LineNumbersStyle {
    Off,
    On,
    Relative,
}

/// A position in a document: zero-based line and character.
#[derive(Clone, Copy, Debug, PartialEq, Eq, Structural)]
pub struct Position {
    pub line: u32,
    pub character: u32,
}

#[derive(Clone, Copy, Debug, PartialEq, Eq, Structural)]
pub struct Range {
    pub start: Position,
    pub end: Position,
}

/// A selection: where it was started and where the cursor is.
#[derive(Clone, Copy, Debug, PartialEq, Eq, Structural)]
pub struct Selection {
    pub anchor: Position,
    pub active: Position,
}

/// A replacement of the text in a range.
pub struct TextEdit {
    pub range: Range,
    pub new_text: String,
}

/// A change to a document's text.
pub struct TextDocumentContentChange {
    pub range: Option<Range>,
    pub range_offset: Option<u32>,
    pub range_length: Option<u32>,
    pub text: String,
}

/// A document and the changes just made to it.
pub struct TextDocumentChangeEvent {
    pub document: TextDocument,
    pub content_changes: Vec<TextDocumentContentChange>,
}

/// Decorations of one type drawn over ranges of an editor.
pub struct TextEditorDecoration {
    pub id: String,
    pub owner: String,
    pub decoration_type: String,
    pub ranges: Vec<Range>,
}

/// Mathematical form of a [`TextEditorDecoration`].
pub struct DecorationView {
    pub id: Seq<char>,
    pub owner: Seq<char>,
    pub decoration_type: Seq<char>,
    pub ranges: Seq<Range>,
}

/// How decorated text is drawn.
pub struct DecorationRenderOptions {
    pub background_color: Option<String>,
    pub border: Option<String>,
    pub border_color: Option<String>,
    pub border_radius: Option<String>,
    pub border_width: Option<String>,
    pub color: Option<String>,
    pub cursor: Option<String>,
    pub text_decoration: Option<String>,
    pub outline: Option<String>,
    pub outline_color: Option<String>,
    pub outline_width: Option<String>,
}

/// A kind of decoration an extension created.
pub struct DecorationType {
    pub id: String,
    pub owner: String,
    pub options: DecorationRenderOptions,
}

impl View for TextDocument {
    type V = TextDocument;

    open spec fn view(&self) -> TextDocument {
        *self
    }
}

impl Duplicate for TextDocument {
    fn duplicate(&self) -> (r: Self) {
        TextDocument {
            uri: self.uri.clone(),
            language_id: self.language_id.clone(),
            version: self.version,
            line_count: self.line_count,
            is_untitled: self.is_untitled,
            is_dirty: self.is_dirty,
        }
    }
}

/// Copies of plain values.
fn copy_all<T: Copy>(v: &Vec<T>) -> (r: Vec<T>)
    ensures
        r@ == v@,
{
    let mut r: Vec<T> = Vec::new();
    let mut i: usize = 0;
    while i < v.len()
        invariant
            i <= v@.len(),
            r@ == v@.take(i as int),
        decreases v@.len() - i,
    {
        r.push(v[i]);
        assert(v@.take(i as int).push(v@[i as int]) =~= v@.take(i + 1));
        i = i + 1;
    }
    assert(v@.take(v@.len() as int) =~= v@);
    r
}

impl View for TextEditor {
    type V = TextEditorView;

    open spec fn view(&self) -> TextEditorView {
        TextEditorView {
            id: self.id@,
            document: self.document,
            selections: self.selections@,
            visible_ranges: self.visible_ranges@,
            options: self.options,
        }
    }
}

impl Duplicate for TextEditor {
    fn duplicate(&self) -> (r: Self) {
        TextEditor {
            id: self.id.clone(),
            document: self.document.duplicate(),
            selections: copy_all(&self.selections),
            visible_ranges: copy_all(&self.visible_ranges),
            options: self.options,
        }
    }
}

impl View for TextEditorDecoration {
    type V = DecorationView;

    open spec fn view(&self) -> DecorationView {
        DecorationView {
            id: self.id@,
            owner: self.owner@,
            decoration_type: self.decoration_type@,
            ranges: self.ranges@,
        }
    }
}

impl Duplicate for TextEditorDecoration {
    fn duplicate(&self) -> (r: Self) {
        TextEditorDecoration {
            id: self.id.clone(),
            owner: self.owner.clone(),
            decoration_type: self.decoration_type.clone(),
            ranges: copy_all(&self.ranges),
        }
    }
}

impl View for DecorationType {
    type V = DecorationType;

    open spec fn view(&self) -> DecorationType {
        *self
    }
}

impl Duplicate for DecorationType {
    fn duplicate(&self) -> (r: Self) {
        let o = &self.options;
        DecorationType {
            id: self.id.clone(),
            owner: self.owner.clone(),
            options: DecorationRenderOptions {
                background_color: clone_opt(&o.background_color),
                border: clone_opt(&o.border),
                border_color: clone_opt(&o.border_color),
                border_radius: clone_opt(&o.border_radius),
                border_width: clone_opt(&o.border_width),
                color: clone_opt(&o.color),
                cursor: clone_opt(&o.cursor),
                text_decoration: clone_opt(&o.text_decoration),
                outline: clone_opt(&o.outline),
                outline_color: clone_opt(&o.outline_color),
                outline_width: clone_opt(&o.outline_width),
            },
        }
    }
}

/// The decorations of one editor.
pub struct DecorationList {
    pub items: Vec<TextEditorDecoration>,
}

impl View for DecorationList {
    type V = Seq<DecorationView>;

    open spec fn view(&self) -> Seq<DecorationView> {
        views(self.items@)
    }
}

impl Duplicate for DecorationList {
    fn duplicate(&self) -> (r: Self) {
        let c = duplicate_all(&self.items);
        assert(views(c@) =~= views(self.items@));
        DecorationList { items: c }
    }
}

/// The condition "kept when decorations of `value` are removed": by owner
/// when `by_owner`, else by decoration type.
pub open spec fn decoration_kept(by_owner: bool, value: Seq<char>) -> spec_fn(DecorationView) -> bool {
    |d: DecorationView| if by_owner {
        d.owner != value
    } else {
        d.decoration_type != value
    }
}

/// Every editor's decorations, filtered by `p`.
pub open spec fn filter_decorations(
    d: Seq<(Seq<char>, Seq<DecorationView>)>,
    p: spec_fn(DecorationView) -> bool,
) -> Seq<(Seq<char>, Seq<DecorationView>)> {
    d.map_values(|e: (Seq<char>, Seq<DecorationView>)| (e.0, e.1.filter(p)))
}

/// The decorations of an editor after `set_editor_decorations`: those of the
/// other types, then the new one when there are ranges.
pub open spec fn set_decorations_spec(
    list: Seq<DecorationView>,
    editor_id: Seq<char>,
    decoration_type_id: Seq<char>,
    ranges: Seq<Range>,
    owner: Seq<char>,
) -> Seq<DecorationView> {
    let kept = list.filter(decoration_kept(false, decoration_type_id));
    if ranges.len() == 0 {
        kept
    } else {
        kept.push(
            DecorationView {
                id: decoration_type_id.push(':') + editor_id,
                owner,
                decoration_type: decoration_type_id,
                ranges,
            },
        )
    }
}

fn keep_decorations(list: &Vec<TextEditorDecoration>, by_owner: bool, value: &str) -> (r: Vec<
    TextEditorDecoration,
>)
    ensures
        views(r@) == views(list@).filter(decoration_kept(by_owner, value@)),
{
    let ghost s = views(list@);
    let ghost p = decoration_kept(by_owner, value@);
    let mut out: Vec<TextEditorDecoration> = Vec::new();
    let mut i: usize = 0;
    assert(s.take(0).filter(p) =~= Seq::<DecorationView>::empty()) by {
        reveal(Seq::filter);
    }
    while i < list.len()
        invariant
            i <= list@.len(),
            s == views(list@),
            p == decoration_kept(by_owner, value@),
            views(out@) == s.take(i as int).filter(p),
        decreases list@.len() - i,
    {
        proof {
            assert(s.take(i + 1) =~= s.take(i as int).push(s[i as int]));
            s.take(i as int).lemma_filter_push(s[i as int], p);
        }
        let field = if by_owner {
            list[i].owner.as_str()
        } else {
            list[i].decoration_type.as_str()
        };
        if !str_eq(field, value) {
            let c = list[i].duplicate();
            out.push(c);
            assert(views(out@) =~= s.take(i as int).filter(p).push(s[i as int]));
        }
        i = i + 1;
    }
    assert(s.take(i as int) =~= s);
    out
}

fn filter_all_decorations(store: &mut Store<DecorationList>, by_owner: bool, value: &str)
    requires
        old(store).wf(),
    ensures
        final(store).wf(),
        final(store).entries() == filter_decorations(
            old(store).entries(),
            decoration_kept(by_owner, value@),
        ),
{
    let ghost before = store.entries();
    let n = store.len();
    let mut i: usize = 0;
    while i < n
        invariant
            store.wf(),
            n == before.len(),
            i <= n,
            store.entries().len() == n,
            forall|k: int|
                0 <= k < n ==> (#[trigger] store.entries()[k]) == if k < i {
                    filter_decorations(before, decoration_kept(by_owner, value@))[k]
                } else {
                    before[k]
                },
        decreases n - i,
    {
        let (_, list) = store.entry_at(i);
        let kept = keep_decorations(&list.items, by_owner, value);
        store.set_at(i, DecorationList { items: kept });
        i = i + 1;
    }
    assert(store.entries() =~= filter_decorations(before, decoration_kept(by_owner, value@)));
}

pub open spec fn not_found(what: Seq<char>, id: Seq<char>) -> Seq<char> {
    what + " not found: "@ + id
}

fn not_found_error(what: &str, id: &str) -> (r: CoreError)
    ensures
        r matches CoreError::Config(m) && m@ == not_found(what@, id@),
{
    let a = concat(what, " not found: ");
    CoreError::Config(concat(a.as_str(), id))
}

/// Open documents by URI, editors by id, decoration types by id, and the
/// decorations of each editor.
pub struct TextDocumentRegistry {
    documents: Store<TextDocument>,
    editors: Store<TextEditor>,
    decorations: Store<DecorationList>,
    decoration_types: Store<DecorationType>,
}

impl TextDocumentRegistry {
    pub closed spec fn documents(&self) -> Seq<(Seq<char>, TextDocument)> {
        self.documents.entries()
    }

    pub closed spec fn editors(&self) -> Seq<(Seq<char>, TextEditorView)> {
        self.editors.entries()
    }

    pub closed spec fn decorations(&self) -> Seq<(Seq<char>, Seq<DecorationView>)> {
        self.decorations.entries()
    }

    pub closed spec fn decoration_types(&self) -> Seq<(Seq<char>, DecorationType)> {
        self.decoration_types.entries()
    }

    pub open spec fn wf(&self) -> bool {
        &&& distinct_keys(self.documents())
        &&& distinct_keys(self.editors())
        &&& distinct_keys(self.decorations())
        &&& distinct_keys(self.decoration_types())
    }

    pub fn new() -> (r: Self)
        ensures
            r.wf(),
            r.documents().len() == 0,
            r.editors().len() == 0,
            r.decorations().len() == 0,
            r.decoration_types().len() == 0,
    {
        TextDocumentRegistry {
            documents: Store::new(),
            editors: Store::new(),
            decorations: Store::new(),
            decoration_types: Store::new(),
        }
    }

    /// Records a document under its URI, replacing one with the same URI.
    pub fn register_text_document(&mut self, document: TextDocument) -> (r: Result<(), CoreError>)
        requires
            old(self).wf(),
        ensures
            final(self).wf(),
            final(self).documents() == store_insert(old(self).documents(), document.uri@, document),
            final(self).editors() == old(self).editors(),
            final(self).decorations() == old(self).decorations(),
            final(self).decoration_types() == old(self).decoration_types(),
            r is Ok,
    {
        let key = document.uri.clone();
        self.documents.insert(key, document);
        Ok(())
    }

    /// Forgets the document at `uri`.
    pub fn unregister_text_document(&mut self, uri: &str) -> (r: Result<(), CoreError>)
        requires
            old(self).wf(),
        ensures
            final(self).wf(),
            final(self).documents() == store_remove(old(self).documents(), uri@),
            final(self).editors() == old(self).editors(),
            final(self).decorations() == old(self).decorations(),
            final(self).decoration_types() == old(self).decoration_types(),
            lookup(old(self).documents(), uri@) is Some <==> r is Ok,
            r is Err ==> (r matches Err(CoreError::Config(m)) && m@ == not_found("Text document"@, uri@)),
    {
        match self.documents.remove(uri) {
            Some(_) => Ok(()),
            None => Err(not_found_error("Text document", uri)),
        }
    }

    /// Sets a document's version; gives back the change event to deliver.
    pub fn update_text_document(
        &mut self,
        uri: &str,
        version: u64,
        content_changes: Vec<TextDocumentContentChange>,
    ) -> (r: Result<TextDocumentChangeEvent, CoreError>)
        requires
            old(self).wf(),
        ensures
            final(self).wf(),
            final(self).editors() == old(self).editors(),
            final(self).decorations() == old(self).decorations(),
            final(self).decoration_types() == old(self).decoration_types(),
            match lookup(old(self).documents(), uri@) {
                Some(d) => {
                    &&& final(self).documents() == store_insert(
                        old(self).documents(),
                        uri@,
                        TextDocument { version, ..d },
                    )
                    &&& r matches Ok(event) && event.document == (TextDocument { version, ..d })
                        && event.content_changes == content_changes
                },
                None => {
                    &&& final(self).documents() == old(self).documents()
                    &&& r matches Err(CoreError::Config(m)) && m@ == not_found("Text document"@, uri@)
                },
            },
    {
        match self.documents.get(uri) {
            Some(d) => {
                let mut d = d;
                d.version = version;
                let copy = d.duplicate();
                let key = crate::text::owned(uri);
                self.documents.insert(key, d);
                Ok(TextDocumentChangeEvent { document: copy, content_changes })
            },
            None => Err(not_found_error("Text document", uri)),
        }
    }

    /// Marks a document as saved: no longer dirty.
    pub fn mark_document_saved(&mut self, uri: &str) -> (r: Result<(), CoreError>)
        requires
            old(self).wf(),
        ensures
            final(self).wf(),
            final(self).editors() == old(self).editors(),
            final(self).decorations() == old(self).decorations(),
            final(self).decoration_types() == old(self).decoration_types(),
            match lookup(old(self).documents(), uri@) {
                Some(d) => r is Ok && final(self).documents() == store_insert(
                    old(self).documents(),
                    uri@,
                    TextDocument { is_dirty: false, ..d },
                ),
                None => final(self).documents() == old(self).documents()
                    && (r matches Err(CoreError::Config(m)) && m@ == not_found("Text document"@, uri@)),
            },
    {
        match self.documents.get(uri) {
            Some(d) => {
                let mut d = d;
                d.is_dirty = false;
                let key = crate::text::owned(uri);
                self.documents.insert(key, d);
                Ok(())
            },
            None => Err(not_found_error("Text document", uri)),
        }
    }

    /// A copy of the document at `uri`.
    pub fn get_text_document(&self, uri: &str) -> (r: Result<TextDocument, CoreError>)
        ensures
            match lookup(self.documents(), uri@) {
                Some(d) => r == Ok::<TextDocument, CoreError>(d),
                None => r matches Err(CoreError::Config(m)) && m@ == not_found("Text document"@, uri@),
            },
    {
        match self.documents.get(uri) {
            Some(d) => Ok(d),
            None => Err(not_found_error("Text document", uri)),
        }
    }

    /// Copies of all open documents.
    pub fn get_all_text_documents(&self) -> (r: Vec<TextDocument>)
        ensures
            r@ == values_of(self.documents()),
    {
        let r = self.documents.values();
        assert(r@ =~= views(r@));
        r
    }

    /// Records an editor under its id, replacing one with the same id.
    pub fn register_text_editor(&mut self, editor: TextEditor) -> (r: Result<(), CoreError>)
        requires
            old(self).wf(),
        ensures
            final(self).wf(),
            final(self).editors() == store_insert(old(self).editors(), editor.id@, editor@),
            final(self).documents() == old(self).documents(),
            final(self).decorations() == old(self).decorations(),
            final(self).decoration_types() == old(self).decoration_types(),
            r is Ok,
    {
        let key = editor.id.clone();
        self.editors.insert(key, editor);
        Ok(())
    }

    /// Forgets the editor with `editor_id`.
    pub fn unregister_text_editor(&mut self, editor_id: &str) -> (r: Result<(), CoreError>)
        requires
            old(self).wf(),
        ensures
            final(self).wf(),
            final(self).editors() == store_remove(old(self).editors(), editor_id@),
            final(self).documents() == old(self).documents(),
            final(self).decorations() == old(self).decorations(),
            final(self).decoration_types() == old(self).decoration_types(),
            lookup(old(self).editors(), editor_id@) is Some <==> r is Ok,
            r is Err ==> (r matches Err(CoreError::Config(m)) && m@ == not_found("Text editor"@, editor_id@)),
    {
        match self.editors.remove(editor_id) {
            Some(_) => Ok(()),
            None => Err(not_found_error("Text editor", editor_id)),
        }
    }

    /// Replaces an editor's selections.
    pub fn update_editor_selections(&mut self, editor_id: &str, selections: Vec<Selection>) -> (r:
        Result<(), CoreError>)
        requires
            old(self).wf(),
        ensures
            final(self).wf(),
            final(self).documents() == old(self).documents(),
            final(self).decorations() == old(self).decorations(),
            final(self).decoration_types() == old(self).decoration_types(),
            match lookup(old(self).editors(), editor_id@) {
                Some(e) => r is Ok && final(self).editors() == store_insert(
                    old(self).editors(),
                    editor_id@,
                    TextEditorView { selections: selections@, ..e },
                ),
                None => final(self).editors() == old(self).editors()
                    && (r matches Err(CoreError::Config(m)) && m@ == not_found("Text editor"@, editor_id@)),
            },
    {
        match self.editors.get(editor_id) {
            Some(e) => {
                let mut e = e;
                e.selections = selections;
                let key = crate::text::owned(editor_id);
                self.editors.insert(key, e);
                Ok(())
            },
            None => Err(not_found_error("Text editor", editor_id)),
        }
    }

    /// Replaces an editor's visible ranges.
    pub fn update_editor_visible_ranges(&mut self, editor_id: &str, visible_ranges: Vec<Range>) -> (r:
        Result<(), CoreError>)
        requires
            old(self).wf(),
        ensures
            final(self).wf(),
            final(self).documents() == old(self).documents(),
            final(self).decorations() == old(self).decorations(),
            final(self).decoration_types() == old(self).decoration_types(),
            match lookup(old(self).editors(), editor_id@) {
                Some(e) => r is Ok && final(self).editors() == store_insert(
                    old(self).editors(),
                    editor_id@,
                    TextEditorView { visible_ranges: visible_ranges@, ..e },
                ),
                None => final(self).editors() == old(self).editors()
                    && (r matches Err(CoreError::Config(m)) && m@ == not_found("Text editor"@, editor_id@)),
            },
    {
        match self.editors.get(editor_id) {
            Some(e) => {
                let mut e = e;
                e.visible_ranges = visible_ranges;
                let key = crate::text::owned(editor_id);
                self.editors.insert(key, e);
                Ok(())
            },
            None => Err(not_found_error("Text editor", editor_id)),
        }
    }

    /// A copy of the editor with `editor_id`.
    pub fn get_text_editor(&self, editor_id: &str) -> (r: Result<TextEditor, CoreError>)
        ensures
            match lookup(self.editors(), editor_id@) {
                Some(e) => r matches Ok(got) && got@ == e,
                None => r matches Err(CoreError::Config(m)) && m@ == not_found("Text editor"@, editor_id@),
            },
    {
        match self.editors.get(editor_id) {
            Some(e) => Ok(e),
            None => Err(not_found_error("Text editor", editor_id)),
        }
    }

    /// Copies of all editors.
    pub fn get_all_text_editors(&self) -> (r: Vec<TextEditor>)
        ensures
            views(r@) == values_of(self.editors()),
    {
        self.editors.values()
    }

    /// Records a decoration type under its id; gives back the id.
    pub fn create_decoration_type(&mut self, decoration_type: DecorationType) -> (r: Result<
        String,
        CoreError,
    >)
        requires
            old(self).wf(),
        ensures
            final(self).wf(),
            final(self).decoration_types() == store_insert(
                old(self).decoration_types(),
                decoration_type.id@,
                decoration_type,
            ),
            final(self).documents() == old(self).documents(),
            final(self).editors() == old(self).editors(),
            final(self).decorations() == old(self).decorations(),
            r matches Ok(id) && id@ == decoration_type.id@,
    {
        let id = decoration_type.id.clone();
        let key = decoration_type.id.clone();
        self.decoration_types.insert(key, decoration_type);
        Ok(id)
    }

    /// Removes a decoration type and every decoration of that type.
    pub fn dispose_decoration_type(&mut self, decoration_type_id: &str) -> (r: Result<(), CoreError>)
        requires
            old(self).wf(),
        ensures
            final(self).wf(),
            final(self).documents() == old(self).documents(),
            final(self).editors() == old(self).editors(),
            lookup(old(self).decoration_types(), decoration_type_id@) is Some ==> {
                &&& r is Ok
                &&& final(self).decoration_types() == store_remove(
                    old(self).decoration_types(),
                    decoration_type_id@,
                )
                &&& final(self).decorations() == filter_decorations(
                    old(self).decorations(),
                    decoration_kept(false, decoration_type_id@),
                )
            },
            lookup(old(self).decoration_types(), decoration_type_id@) is None ==> {
                &&& r matches Err(CoreError::Config(m)) && m@ == not_found(
                    "Decoration type"@,
                    decoration_type_id@,
                )
                &&& final(self).decoration_types() == old(self).decoration_types()
                &&& final(self).decorations() == old(self).decorations()
            },
    {
        match self.decoration_types.remove(decoration_type_id) {
            Some(_) => {
                filter_all_decorations(&mut self.decorations, false, decoration_type_id);
                Ok(())
            },
            None => Err(not_found_error("Decoration type", decoration_type_id)),
        }
    }

    /// Replaces an editor's decorations of one type with one over `ranges`
    /// (none when `ranges` is empty).
    pub fn set_editor_decorations(
        &mut self,
        editor_id: &str,
        decoration_type_id: &str,
        ranges: Vec<Range>,
        owner: &str,
    ) -> (r: Result<(), CoreError>)
        requires
            old(self).wf(),
        ensures
            final(self).wf(),
            final(self).documents() == old(self).documents(),
            final(self).editors() == old(self).editors(),
            final(self).decoration_types() == old(self).decoration_types(),
            final(self).decorations() == store_insert(
                old(self).decorations(),
                editor_id@,
                set_decorations_spec(
                    match lookup(old(self).decorations(), editor_id@) {
                        Some(l) => l,
                        None => Seq::empty(),
                    },
                    editor_id@,
                    decoration_type_id@,
                    ranges@,
                    owner@,
                ),
            ),
            r is Ok,
    {
        let current = match self.decorations.get(editor_id) {
            Some(l) => l.items,
            None => Vec::new(),
        };
        let ghost cv = views(current@);
        assert(cv == match lookup(old(self).decorations(), editor_id@) {
            Some(l) => l,
            None => Seq::<DecorationView>::empty(),
        });
        let mut kept = keep_decorations(&current, false, decoration_type_id);
        if ranges.len() > 0 {
            let d = TextEditorDecoration {
                id: concat(join_with(decoration_type_id, ':', "").as_str(), editor_id),
                owner: crate::text::owned(owner),
                decoration_type: crate::text::owned(decoration_type_id),
                ranges,
            };
            assert(decoration_type_id@.push(':') + ""@ == decoration_type_id@.push(':')) by {
                reveal_strlit("");
                assert(decoration_type_id@.push(':') + ""@ =~= decoration_type_id@.push(':'));
            }
            let ghost dv = d@;
            kept.push(d);
            assert(views(kept@) =~= cv.filter(decoration_kept(false, decoration_type_id@)).push(dv));
        }
        let key = crate::text::owned(editor_id);
        self.decorations.insert(key, DecorationList { items: kept });
        Ok(())
    }

    /// Copies of an editor's decorations.
    pub fn get_editor_decorations(&self, editor_id: &str) -> (r: Vec<TextEditorDecoration>)
        ensures
            views(r@) == match lookup(self.decorations(), editor_id@) {
                Some(l) => l,
                None => Seq::empty(),
            },
    {
        match self.decorations.get(editor_id) {
            Some(l) => l.items,
            None => {
                let v: Vec<TextEditorDecoration> = Vec::new();
                assert(views(v@) =~= Seq::<DecorationView>::empty());
                v
            },
        }
    }

    /// Removes the decoration types and decorations contributed by `owner`.
    pub fn clear_textdocument_data(&mut self, owner: &str)
        requires
            old(self).wf(),
        ensures
            final(self).wf(),
            final(self).documents() == old(self).documents(),
            final(self).editors() == old(self).editors(),
            final(self).decoration_types() == old(self).decoration_types().filter(
                |e: (Seq<char>, DecorationType)| e.1.owner@ != owner@,
            ),
            final(self).decorations() == filter_decorations(
                old(self).decorations(),
                decoration_kept(true, owner@),
            ),
    {
        let ghost before = self.decoration_types();
        let ghost pred = |e: (Seq<char>, DecorationType)| e.1.owner@ != owner@;
        let n = self.decoration_types.len();
        let mut keep: Vec<bool> = Vec::new();
        let mut i: usize = 0;
        while i < n
            invariant
                n == before.len(),
                before == self.decoration_types(),
                i <= n,
                keep@.len() == i,
                pred == (|e: (Seq<char>, DecorationType)| e.1.owner@ != owner@),
                forall|k: int| 0 <= k < i ==> keep@[k] == pred(#[trigger] before[k]),
            decreases n - i,
        {
            let (_, t) = self.decoration_types.entry_at(i);
            keep.push(!str_eq(t.owner.as_str(), owner));
            i = i + 1;
        }
        self.decoration_types.retain_mask(&keep);
        proof {
            crate::store::lemma_filter_mask_is_filter(before, keep@, pred);
        }
        filter_all_decorations(&mut self.decorations, true, owner);
    }
}

} // verus!
