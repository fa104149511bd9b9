//! Language features contributed by extensions: providers chosen by document
//! selector, and the diagnostics published for each document.
use vstd::prelude::*;
use crate::store::{Duplicate, Store, views, duplicate_all, lookup, store_insert, store_remove, distinct_keys};
use crate::text::{clone_opt, clone_strings, opt_view, str_eq};
use crate::language::{DocumentFilter, DocumentSelector, selector_accepts};

verus! {

/// A provider with an identity and a contributing extension.
pub trait OwnedProvider: Duplicate {
    /// The provider's id, read from its view.
    spec fn id_of(v: Self::V) -> Seq<char>;

    /// The contributing extension, read from its view.
    spec fn owner_of(v: Self::V) -> Seq<char>;

    fn id(&self) -> (r: &String)
        ensures
            r@ == Self::id_of(self@),
    ;

    fn owner(&self) -> (r: &String)
        ensures
            r@ == Self::owner_of(self@),
    ;
}

/// A provider that applies to the documents its selector accepts.
pub trait SelectableProvider: OwnedProvider {
    spec fn selects(v: Self::V, language: Seq<char>, uri: Seq<char>) -> bool;

    fn matches_document(&self, language: &str, uri: &str) -> (r: bool)
        ensures
            r == Self::selects(self@, language@, uri@),
    ;
}

/// The condition "applies to this document".
pub open spec fn selecting<T: SelectableProvider>(language: Seq<char>, uri: Seq<char>) -> spec_fn(
    T::V,
) -> bool {
    |v: T::V| T::selects(v, language, uri)
}

/// The condition "not contributed by `owner`".
pub open spec fn not_owned_by<T: OwnedProvider>(owner: Seq<char>) -> spec_fn(T::V) -> bool {
    |v: T::V| T::owner_of(v) != owner
}

fn register_provider<T: OwnedProvider>(providers: &mut Vec<T>, provider: T) -> (r: Result<
    String,
    String,
>)
    ensures
        views(final(providers)@) == views(old(providers)@).push(provider@),
        r matches Ok(id) && id@ == T::id_of(provider@),
{
    let ghost pv = provider@;
    let id = provider.id().clone();
    providers.push(provider);
    assert(views(providers@) =~= views(old(providers)@).push(pv));
    Ok(id)
}

fn get_matching_providers<T: SelectableProvider>(
    providers: &Vec<T>,
    language: &str,
    uri: &str,
) -> (r: Vec<T>)
    ensures
        views(r@) == views(providers@).filter(selecting::<T>(language@, uri@)),
{
    let ghost s = views(providers@);
    let ghost p = selecting::<T>(language@, uri@);
    let mut out: Vec<T> = Vec::new();
    let mut i: usize = 0;
    assert(s.take(0).filter(p) =~= Seq::<T::V>::empty()) by {
        reveal(Seq::filter);
    }
    while i < providers.len()
        invariant
            i <= providers@.len(),
            s == views(providers@),
            p == selecting::<T>(language@, uri@),
            views(out@) == s.take(i as int).filter(p),
        decreases providers@.len() - i,
    {
        proof {
            assert(s.take(i + 1) =~= s.take(i as int).push(s[i as int]));
            s.take(i as int).lemma_filter_push(s[i as int], p);
        }
        if providers[i].matches_document(language, uri) {
            let c = providers[i].duplicate();
            out.push(c);
            assert(views(out@) =~= s.take(i as int).filter(p).push(s[i as int]));
        }
        i = i + 1;
    }
    assert(s.take(i as int) =~= s);
    out
}

fn get_all_providers<T: OwnedProvider>(providers: &Vec<T>) -> (r: Vec<T>)
    ensures
        views(r@) == views(providers@),
{
    let r = duplicate_all(providers);
    assert(views(r@) =~= views(providers@));
    r
}

fn clear_owned_provider_list<T: OwnedProvider>(providers: &mut Vec<T>, owner: &str)
    ensures
        views(final(providers)@) == views(old(providers)@).filter(not_owned_by::<T>(owner@)),
{
    let ghost s = views(providers@);
    let ghost p = not_owned_by::<T>(owner@);
    let mut out: Vec<T> = Vec::new();
    let mut i: usize = 0;
    assert(s.take(0).filter(p) =~= Seq::<T::V>::empty()) by {
        reveal(Seq::filter);
    }
    while i < providers.len()
        invariant
            i <= providers@.len(),
            s == views(providers@),
            p == not_owned_by::<T>(owner@),
            views(out@) == s.take(i as int).filter(p),
        decreases providers@.len() - i,
    {
        proof {
            assert(s.take(i + 1) =~= s.take(i as int).push(s[i as int]));
            s.take(i as int).lemma_filter_push(s[i as int], p);
        }
        if !str_eq(providers[i].owner().as_str(), owner) {
            let c = providers[i].duplicate();
            out.push(c);
            assert(views(out@) =~= s.take(i as int).filter(p).push(s[i as int]));
        }
        i = i + 1;
    }
    assert(s.take(i as int) =~= s);
    *providers = out;
}

/// Legend of the semantic token types and modifiers a provider reports.
pub struct SemanticTokensLegend {
    pub token_types: Vec<String>,
    pub token_modifiers: Vec<String>,
}

impl View for SemanticTokensLegend {
    type V = (Seq<String>, Seq<String>);

    open spec fn view(&self) -> (Seq<String>, Seq<String>) {
        (self.token_types@, self.token_modifiers@)
    }
}

impl Duplicate for SemanticTokensLegend {
    fn duplicate(&self) -> (r: Self) {
        SemanticTokensLegend {
            token_types: clone_strings(&self.token_types),
            token_modifiers: clone_strings(&self.token_modifiers),
        }
    }
}

/// A position in a document: zero-based line and character.
#[derive(Clone, Copy, Debug, PartialEq, Eq, Structural)]
pub struct Position {
    pub line: u32,
    pub character: u32,
}

/// A span of a document.
#[derive(Clone, Copy, Debug, PartialEq, Eq, Structural)]
pub struct Range {
    pub start: Position,
    pub end: Position,
}

/// How serious a diagnostic is.
#[derive(Clone, Copy, Debug, PartialEq, Eq, Structural)]
pub enum DiagnosticSeverity {
    Error,
    Warning,
    Information,
    Hint,
}

/// A place in some document.
#[derive(Debug)]
pub struct Location {
    pub uri: String,
    pub range: Range,
}

/// Another place that a diagnostic refers to.
#[derive(Debug)]
pub struct DiagnosticRelatedInformation {
    pub location: Location,
    pub message: String,
}

impl View for DiagnosticRelatedInformation {
    type V = DiagnosticRelatedInformation;

    open spec fn view(&self) -> DiagnosticRelatedInformation {
        *self
    }
}

impl Duplicate for DiagnosticRelatedInformation {
    fn duplicate(&self) -> (r: Self) {
        DiagnosticRelatedInformation {
            location: Location { uri: self.location.uri.clone(), range: self.location.range },
            message: self.message.clone(),
        }
    }
}

/// A problem reported in a document.
#[derive(Debug)]
pub struct Diagnostic {
    pub uri: String,
    pub range: Range,
    pub severity: DiagnosticSeverity,
    pub code: Option<String>,
    /// The reporting extension.
    pub source: Option<String>,
    pub message: String,
    pub related_information: Option<Vec<DiagnosticRelatedInformation>>,
}

/// Mathematical form of a [`Diagnostic`].
pub struct DiagnosticView {
    pub uri: Seq<char>,
    pub range: Range,
    pub severity: DiagnosticSeverity,
    pub code: Option<Seq<char>>,
    pub source: Option<Seq<char>>,
    pub message: Seq<char>,
    pub related_information: Option<Seq<DiagnosticRelatedInformation>>,
}

impl View for Diagnostic {
    type V = DiagnosticView;

    open spec fn view(&self) -> DiagnosticView {
        DiagnosticView {
            uri: self.uri@,
            range: self.range,
            severity: self.severity,
            code: opt_view(self.code),
            source: opt_view(self.source),
            message: self.message@,
            related_information: match self.related_information {
                Some(v) => Some(v@),
                None => None,
            },
        }
    }
}

impl Duplicate for Diagnostic {
    fn duplicate(&self) -> (r: Self) {
        let related = match &self.related_information {
            Some(v) => {
                let c = duplicate_all(v);
                assert(c@ =~= v@);
                Some(c)
            },
            None => None,
        };
        Diagnostic {
            uri: self.uri.clone(),
            range: self.range,
            severity: self.severity,
            code: clone_opt(&self.code),
            source: clone_opt(&self.source),
            message: self.message.clone(),
            related_information: related,
        }
    }
}

/// The diagnostics of one document.
pub struct DiagnosticList {
    pub items: Vec<Diagnostic>,
}

impl View for DiagnosticList {
    type V = Seq<DiagnosticView>;

    open spec fn view(&self) -> Seq<DiagnosticView> {
        views(self.items@)
    }
}

impl Duplicate for DiagnosticList {
    fn duplicate(&self) -> (r: Self) {
        let c = duplicate_all(&self.items);
        assert(views(c@) =~= views(self.items@));
        DiagnosticList { items: c }
    }
}

/// The condition "not reported by `owner`".
pub open spec fn not_from(owner: Seq<char>) -> spec_fn(DiagnosticView) -> bool {
    |d: DiagnosticView| d.source != Some(owner)
}

/// Documents keep an entry only while they have diagnostics.
pub open spec fn diagnostics_wf(d: Seq<(Seq<char>, Seq<DiagnosticView>)>) -> bool {
    forall|i: int| 0 <= i < d.len() ==> (#[trigger] d[i]).1.len() > 0
}

/// The diagnostics after removing those of `owner`; documents left with none
/// lose their entry.
pub open spec fn clear_diagnostics_spec(d: Seq<(Seq<char>, Seq<DiagnosticView>)>, owner: Seq<char>) -> Seq<
    (Seq<char>, Seq<DiagnosticView>),
> {
    d.map_values(|e: (Seq<char>, Seq<DiagnosticView>)| (e.0, e.1.filter(not_from(owner)))).filter(
        |e: (Seq<char>, Seq<DiagnosticView>)| e.1.len() > 0,
    )
}

/// The diagnostics after `uri`'s are replaced by `list`; an empty list removes
/// the document's entry.
pub open spec fn publish_spec(
    d: Seq<(Seq<char>, Seq<DiagnosticView>)>,
    uri: Seq<char>,
    list: Seq<DiagnosticView>,
) -> Seq<(Seq<char>, Seq<DiagnosticView>)> {
    if list.len() == 0 {
        store_remove(d, uri)
    } else {
        store_insert(d, uri, list)
    }
}

/// The diagnostics published for `uri`.
pub open spec fn diagnostics_of(d: Seq<(Seq<char>, Seq<DiagnosticView>)>, uri: Seq<char>) -> Seq<
    DiagnosticView,
> {
    match lookup(d, uri) {
        Some(l) => l,
        None => Seq::empty(),
    }
}

/// A hover provider contributed by an extension.
pub struct HoverProvider {
    pub id: String,
    pub owner: String,
    pub selector: DocumentSelector,
}

impl View for HoverProvider {
    type V = (Seq<char>, Seq<char>, Seq<DocumentFilter>);

    open spec fn view(&self) -> (Seq<char>, Seq<char>, Seq<DocumentFilter>) {
        (self.id@, self.owner@, self.selector@)
    }
}

impl Duplicate for HoverProvider {
    fn duplicate(&self) -> (r: Self) {
        HoverProvider {
            id: self.id.clone(),
            owner: self.owner.clone(),
            selector: self.selector.duplicate(),
        }
    }
}

impl OwnedProvider for HoverProvider {
    open spec fn id_of(v: (Seq<char>, Seq<char>, Seq<DocumentFilter>)) -> Seq<char> {
        v.0
    }

    open spec fn owner_of(v: (Seq<char>, Seq<char>, Seq<DocumentFilter>)) -> Seq<char> {
        v.1
    }

    fn id(&self) -> (r: &String) {
        &self.id
    }

    fn owner(&self) -> (r: &String) {
        &self.owner
    }
}

impl SelectableProvider for HoverProvider {
    open spec fn selects(v: (Seq<char>, Seq<char>, Seq<DocumentFilter>), language: Seq<char>, uri: Seq<char>) -> bool {
        selector_accepts(v.2, language, uri)
    }

    fn matches_document(&self, language: &str, uri: &str) -> (r: bool) {
        self.selector.matches(language, uri)
    }
}

/// A definition provider contributed by an extension.
pub struct DefinitionProvider {
    pub id: String,
    pub owner: String,
    pub selector: DocumentSelector,
}

impl View for DefinitionProvider {
    type V = (Seq<char>, Seq<char>, Seq<DocumentFilter>);

    open spec fn view(&self) -> (Seq<char>, Seq<char>, Seq<DocumentFilter>) {
        (self.id@, self.owner@, self.selector@)
    }
}

impl Duplicate for DefinitionProvider {
    fn duplicate(&self) -> (r: Self) {
        DefinitionProvider {
            id: self.id.clone(),
            owner: self.owner.clone(),
            selector: self.selector.duplicate(),
        }
    }
}

impl OwnedProvider for DefinitionProvider {
    open spec fn id_of(v: (Seq<char>, Seq<char>, Seq<DocumentFilter>)) -> Seq<char> {
        v.0
    }

    open spec fn owner_of(v: (Seq<char>, Seq<char>, Seq<DocumentFilter>)) -> Seq<char> {
        v.1
    }

    fn id(&self) -> (r: &String) {
        &self.id
    }

    fn owner(&self) -> (r: &String) {
        &self.owner
    }
}

impl SelectableProvider for DefinitionProvider {
    open spec fn selects(v: (Seq<char>, Seq<char>, Seq<DocumentFilter>), language: Seq<char>, uri: Seq<char>) -> bool {
        selector_accepts(v.2, language, uri)
    }

    fn matches_document(&self, language: &str, uri: &str) -> (r: bool) {
        self.selector.matches(language, uri)
    }
}

/// A completion provider contributed by an extension.
pub struct CompletionProvider {
    pub id: String,
    pub owner: String,
    pub selector: DocumentSelector,
    pub trigger_characters: Vec<String>,
}

impl View for CompletionProvider {
    type V = (Seq<char>, Seq<char>, Seq<DocumentFilter>, Seq<String>);

    open spec fn view(&self) -> (Seq<char>, Seq<char>, Seq<DocumentFilter>, Seq<String>) {
        (self.id@, self.owner@, self.selector@, self.trigger_characters@)
    }
}

impl Duplicate for CompletionProvider {
    fn duplicate(&self) -> (r: Self) {
        CompletionProvider {
            id: self.id.clone(),
            owner: self.owner.clone(),
            selector: self.selector.duplicate(),
            trigger_characters: clone_strings(&self.trigger_characters),
        }
    }
}

impl OwnedProvider for CompletionProvider {
    open spec fn id_of(v: (Seq<char>, Seq<char>, Seq<DocumentFilter>, Seq<String>)) -> Seq<char> {
        v.0
    }

    open spec fn owner_of(v: (Seq<char>, Seq<char>, Seq<DocumentFilter>, Seq<String>)) -> Seq<char> {
        v.1
    }

    fn id(&self) -> (r: &String) {
        &self.id
    }

    fn owner(&self) -> (r: &String) {
        &self.owner
    }
}

impl SelectableProvider for CompletionProvider {
    open spec fn selects(v: (Seq<char>, Seq<char>, Seq<DocumentFilter>, Seq<String>), language: Seq<char>, uri: Seq<char>) -> bool {
        selector_accepts(v.2, language, uri)
    }

    fn matches_document(&self, language: &str, uri: &str) -> (r: bool) {
        self.selector.matches(language, uri)
    }
}

/// A code action provider contributed by an extension.
pub struct CodeActionProvider {
    pub id: String,
    pub owner: String,
    pub selector: DocumentSelector,
    pub code_action_kinds: Vec<String>,
}

impl View for CodeActionProvider {
    type V = (Seq<char>, Seq<char>, Seq<DocumentFilter>, Seq<String>);

    open spec fn view(&self) -> (Seq<char>, Seq<char>, Seq<DocumentFilter>, Seq<String>) {
        (self.id@, self.owner@, self.selector@, self.code_action_kinds@)
    }
}

impl Duplicate for CodeActionProvider {
    fn duplicate(&self) -> (r: Self) {
        CodeActionProvider {
            id: self.id.clone(),
            owner: self.owner.clone(),
            selector: self.selector.duplicate(),
            code_action_kinds: clone_strings(&self.code_action_kinds),
        }
    }
}

impl OwnedProvider for CodeActionProvider {
    open spec fn id_of(v: (Seq<char>, Seq<char>, Seq<DocumentFilter>, Seq<String>)) -> Seq<char> {
        v.0
    }

    open spec fn owner_of(v: (Seq<char>, Seq<char>, Seq<DocumentFilter>, Seq<String>)) -> Seq<char> {
        v.1
    }

    fn id(&self) -> (r: &String) {
        &self.id
    }

    fn owner(&self) -> (r: &String) {
        &self.owner
    }
}

impl SelectableProvider for CodeActionProvider {
    open spec fn selects(v: (Seq<char>, Seq<char>, Seq<DocumentFilter>, Seq<String>), language: Seq<char>, uri: Seq<char>) -> bool {
        selector_accepts(v.2, language, uri)
    }

    fn matches_document(&self, language: &str, uri: &str) -> (r: bool) {
        self.selector.matches(language, uri)
    }
}

/// A signature help provider contributed by an extension.
pub struct SignatureHelpProvider {
    pub id: String,
    pub owner: String,
    pub selector: DocumentSelector,
    pub trigger_characters: Vec<String>,
    pub retrigger_characters: Vec<String>,
}

impl View for SignatureHelpProvider {
    type V = (Seq<char>, Seq<char>, Seq<DocumentFilter>, Seq<String>, Seq<String>);

    open spec fn view(&self) -> (Seq<char>, Seq<char>, Seq<DocumentFilter>, Seq<String>, Seq<String>) {
        (self.id@, self.owner@, self.selector@, self.trigger_characters@, self.retrigger_characters@)
    }
}

impl Duplicate for SignatureHelpProvider {
    fn duplicate(&self) -> (r: Self) {
        SignatureHelpProvider {
            id: self.id.clone(),
            owner: self.owner.clone(),
            selector: self.selector.duplicate(),
            trigger_characters: clone_strings(&self.trigger_characters),
            retrigger_characters: clone_strings(&self.retrigger_characters),
        }
    }
}

impl OwnedProvider for SignatureHelpProvider {
    open spec fn id_of(v: (Seq<char>, Seq<char>, Seq<DocumentFilter>, Seq<String>, Seq<String>)) -> Seq<char> {
        v.0
    }

    open spec fn owner_of(v: (Seq<char>, Seq<char>, Seq<DocumentFilter>, Seq<String>, Seq<String>)) -> Seq<char> {
        v.1
    }

    fn id(&self) -> (r: &String) {
        &self.id
    }

    fn owner(&self) -> (r: &String) {
        &self.owner
    }
}

impl SelectableProvider for SignatureHelpProvider {
    open spec fn selects(v: (Seq<char>, Seq<char>, Seq<DocumentFilter>, Seq<String>, Seq<String>), language: Seq<char>, uri: Seq<char>) -> bool {
        selector_accepts(v.2, language, uri)
    }

    fn matches_document(&self, language: &str, uri: &str) -> (r: bool) {
        self.selector.matches(language, uri)
    }
}

/// A references provider contributed by an extension.
pub struct ReferencesProvider {
    pub id: String,
    pub owner: String,
    pub selector: DocumentSelector,
}

impl View for ReferencesProvider {
    type V = (Seq<char>, Seq<char>, Seq<DocumentFilter>);

    open spec fn view(&self) -> (Seq<char>, Seq<char>, Seq<DocumentFilter>) {
        (self.id@, self.owner@, self.selector@)
    }
}

impl Duplicate for ReferencesProvider {
    fn duplicate(&self) -> (r: Self) {
        ReferencesProvider {
            id: self.id.clone(),
            owner: self.owner.clone(),
            selector: self.selector.duplicate(),
        }
    }
}

impl OwnedProvider for ReferencesProvider {
    open spec fn id_of(v: (Seq<char>, Seq<char>, Seq<DocumentFilter>)) -> Seq<char> {
        v.0
    }

    open spec fn owner_of(v: (Seq<char>, Seq<char>, Seq<DocumentFilter>)) -> Seq<char> {
        v.1
    }

    fn id(&self) -> (r: &String) {
        &self.id
    }

    fn owner(&self) -> (r: &String) {
        &self.owner
    }
}

impl SelectableProvider for ReferencesProvider {
    open spec fn selects(v: (Seq<char>, Seq<char>, Seq<DocumentFilter>), language: Seq<char>, uri: Seq<char>) -> bool {
        selector_accepts(v.2, language, uri)
    }

    fn matches_document(&self, language: &str, uri: &str) -> (r: bool) {
        self.selector.matches(language, uri)
    }
}

/// A code lens provider contributed by an extension.
pub struct CodeLensProvider {
    pub id: String,
    pub owner: String,
    pub selector: DocumentSelector,
}

impl View for CodeLensProvider {
    type V = (Seq<char>, Seq<char>, Seq<DocumentFilter>);

    open spec fn view(&self) -> (Seq<char>, Seq<char>, Seq<DocumentFilter>) {
        (self.id@, self.owner@, self.selector@)
    }
}

impl Duplicate for CodeLensProvider {
    fn duplicate(&self) -> (r: Self) {
        CodeLensProvider {
            id: self.id.clone(),
            owner: self.owner.clone(),
            selector: self.selector.duplicate(),
        }
    }
}

impl OwnedProvider for CodeLensProvider {
    open spec fn id_of(v: (Seq<char>, Seq<char>, Seq<DocumentFilter>)) -> Seq<char> {
        v.0
    }

    open spec fn owner_of(v: (Seq<char>, Seq<char>, Seq<DocumentFilter>)) -> Seq<char> {
        v.1
    }

    fn id(&self) -> (r: &String) {
        &self.id
    }

    fn owner(&self) -> (r: &String) {
        &self.owner
    }
}

impl SelectableProvider for CodeLensProvider {
    open spec fn selects(v: (Seq<char>, Seq<char>, Seq<DocumentFilter>), language: Seq<char>, uri: Seq<char>) -> bool {
        selector_accepts(v.2, language, uri)
    }

    fn matches_document(&self, language: &str, uri: &str) -> (r: bool) {
        self.selector.matches(language, uri)
    }
}

/// A document highlight provider contributed by an extension.
pub struct DocumentHighlightProvider {
    pub id: String,
    pub owner: String,
    pub selector: DocumentSelector,
}

impl View for DocumentHighlightProvider {
    type V = (Seq<char>, Seq<char>, Seq<DocumentFilter>);

    open spec fn view(&self) -> (Seq<char>, Seq<char>, Seq<DocumentFilter>) {
        (self.id@, self.owner@, self.selector@)
    }
}

impl Duplicate for DocumentHighlightProvider {
    fn duplicate(&self) -> (r: Self) {
        DocumentHighlightProvider {
            id: self.id.clone(),
            owner: self.owner.clone(),
            selector: self.selector.duplicate(),
        }
    }
}

impl OwnedProvider for DocumentHighlightProvider {
    open spec fn id_of(v: (Seq<char>, Seq<char>, Seq<DocumentFilter>)) -> Seq<char> {
        v.0
    }

    open spec fn owner_of(v: (Seq<char>, Seq<char>, Seq<DocumentFilter>)) -> Seq<char> {
        v.1
    }

    fn id(&self) -> (r: &String) {
        &self.id
    }

    fn owner(&self) -> (r: &String) {
        &self.owner
    }
}

impl SelectableProvider for DocumentHighlightProvider {
    open spec fn selects(v: (Seq<char>, Seq<char>, Seq<DocumentFilter>), language: Seq<char>, uri: Seq<char>) -> bool {
        selector_accepts(v.2, language, uri)
    }

    fn matches_document(&self, language: &str, uri: &str) -> (r: bool) {
        self.selector.matches(language, uri)
    }
}

/// A folding range provider contributed by an extension.
pub struct FoldingRangeProvider {
    pub id: String,
    pub owner: String,
    pub selector: DocumentSelector,
}

impl View for FoldingRangeProvider {
    type V = (Seq<char>, Seq<char>, Seq<DocumentFilter>);

    open spec fn view(&self) -> (Seq<char>, Seq<char>, Seq<DocumentFilter>) {
        (self.id@, self.owner@, self.selector@)
    }
}

impl Duplicate for FoldingRangeProvider {
    fn duplicate(&self) -> (r: Self) {
        FoldingRangeProvider {
            id: self.id.clone(),
            owner: self.owner.clone(),
            selector: self.selector.duplicate(),
        }
    }
}

impl OwnedProvider for FoldingRangeProvider {
    open spec fn id_of(v: (Seq<char>, Seq<char>, Seq<DocumentFilter>)) -> Seq<char> {
        v.0
    }

    open spec fn owner_of(v: (Seq<char>, Seq<char>, Seq<DocumentFilter>)) -> Seq<char> {
        v.1
    }

    fn id(&self) -> (r: &String) {
        &self.id
    }

    fn owner(&self) -> (r: &String) {
        &self.owner
    }
}

impl SelectableProvider for FoldingRangeProvider {
    open spec fn selects(v: (Seq<char>, Seq<char>, Seq<DocumentFilter>), language: Seq<char>, uri: Seq<char>) -> bool {
        selector_accepts(v.2, language, uri)
    }

    fn matches_document(&self, language: &str, uri: &str) -> (r: bool) {
        self.selector.matches(language, uri)
    }
}

/// A rename provider contributed by an extension.
pub struct RenameProvider {
    pub id: String,
    pub owner: String,
    pub selector: DocumentSelector,
    pub prepare_provider: bool,
}

impl View for RenameProvider {
    type V = (Seq<char>, Seq<char>, Seq<DocumentFilter>, bool);

    open spec fn view(&self) -> (Seq<char>, Seq<char>, Seq<DocumentFilter>, bool) {
        (self.id@, self.owner@, self.selector@, self.prepare_provider)
    }
}

impl Duplicate for RenameProvider {
    fn duplicate(&self) -> (r: Self) {
        RenameProvider {
            id: self.id.clone(),
            owner: self.owner.clone(),
            selector: self.selector.duplicate(),
            prepare_provider: self.prepare_provider,
        }
    }
}

impl OwnedProvider for RenameProvider {
    open spec fn id_of(v: (Seq<char>, Seq<char>, Seq<DocumentFilter>, bool)) -> Seq<char> {
        v.0
    }

    open spec fn owner_of(v: (Seq<char>, Seq<char>, Seq<DocumentFilter>, bool)) -> Seq<char> {
        v.1
    }

    fn id(&self) -> (r: &String) {
        &self.id
    }

    fn owner(&self) -> (r: &String) {
        &self.owner
    }
}

impl SelectableProvider for RenameProvider {
    open spec fn selects(v: (Seq<char>, Seq<char>, Seq<DocumentFilter>, bool), language: Seq<char>, uri: Seq<char>) -> bool {
        selector_accepts(v.2, language, uri)
    }

    fn matches_document(&self, language: &str, uri: &str) -> (r: bool) {
        self.selector.matches(language, uri)
    }
}

/// A document symbols provider contributed by an extension.
pub struct DocumentSymbolsProvider {
    pub id: String,
    pub owner: String,
    pub selector: DocumentSelector,
}

impl View for DocumentSymbolsProvider {
    type V = (Seq<char>, Seq<char>, Seq<DocumentFilter>);

    open spec fn view(&self) -> (Seq<char>, Seq<char>, Seq<DocumentFilter>) {
        (self.id@, self.owner@, self.selector@)
    }
}

impl Duplicate for DocumentSymbolsProvider {
    fn duplicate(&self) -> (r: Self) {
        DocumentSymbolsProvider {
            id: self.id.clone(),
            owner: self.owner.clone(),
            selector: self.selector.duplicate(),
        }
    }
}

impl OwnedProvider for DocumentSymbolsProvider {
    open spec fn id_of(v: (Seq<char>, Seq<char>, Seq<DocumentFilter>)) -> Seq<char> {
        v.0
    }

    open spec fn owner_of(v: (Seq<char>, Seq<char>, Seq<DocumentFilter>)) -> Seq<char> {
        v.1
    }

    fn id(&self) -> (r: &String) {
        &self.id
    }

    fn owner(&self) -> (r: &String) {
        &self.owner
    }
}

impl SelectableProvider for DocumentSymbolsProvider {
    open spec fn selects(v: (Seq<char>, Seq<char>, Seq<DocumentFilter>), language: Seq<char>, uri: Seq<char>) -> bool {
        selector_accepts(v.2, language, uri)
    }

    fn matches_document(&self, language: &str, uri: &str) -> (r: bool) {
        self.selector.matches(language, uri)
    }
}

/// A workspace symbols provider contributed by an extension.
pub struct WorkspaceSymbolsProvider {
    pub id: String,
    pub owner: String,
}

impl View for WorkspaceSymbolsProvider {
    type V = (Seq<char>, Seq<char>);

    open spec fn view(&self) -> (Seq<char>, Seq<char>) {
        (self.id@, self.owner@)
    }
}

impl Duplicate for WorkspaceSymbolsProvider {
    fn duplicate(&self) -> (r: Self) {
        WorkspaceSymbolsProvider {
            id: self.id.clone(),
            owner: self.owner.clone(),
        }
    }
}

impl OwnedProvider for WorkspaceSymbolsProvider {
    open spec fn id_of(v: (Seq<char>, Seq<char>)) -> Seq<char> {
        v.0
    }

    open spec fn owner_of(v: (Seq<char>, Seq<char>)) -> Seq<char> {
        v.1
    }

    fn id(&self) -> (r: &String) {
        &self.id
    }

    fn owner(&self) -> (r: &String) {
        &self.owner
    }
}

/// A document formatting provider contributed by an extension.
pub struct DocumentFormattingProvider {
    pub id: String,
    pub owner: String,
    pub selector: DocumentSelector,
}

impl View for DocumentFormattingProvider {
    type V = (Seq<char>, Seq<char>, Seq<DocumentFilter>);

    open spec fn view(&self) -> (Seq<char>, Seq<char>, Seq<DocumentFilter>) {
        (self.id@, self.owner@, self.selector@)
    }
}

impl Duplicate for DocumentFormattingProvider {
    fn duplicate(&self) -> (r: Self) {
        DocumentFormattingProvider {
            id: self.id.clone(),
            owner: self.owner.clone(),
            selector: self.selector.duplicate(),
        }
    }
}

impl OwnedProvider for DocumentFormattingProvider {
    open spec fn id_of(v: (Seq<char>, Seq<char>, Seq<DocumentFilter>)) -> Seq<char> {
        v.0
    }

    open spec fn owner_of(v: (Seq<char>, Seq<char>, Seq<DocumentFilter>)) -> Seq<char> {
        v.1
    }

    fn id(&self) -> (r: &String) {
        &self.id
    }

    fn owner(&self) -> (r: &String) {
        &self.owner
    }
}

impl SelectableProvider for DocumentFormattingProvider {
    open spec fn selects(v: (Seq<char>, Seq<char>, Seq<DocumentFilter>), language: Seq<char>, uri: Seq<char>) -> bool {
        selector_accepts(v.2, language, uri)
    }

    fn matches_document(&self, language: &str, uri: &str) -> (r: bool) {
        self.selector.matches(language, uri)
    }
}

/// A range formatting provider contributed by an extension.
pub struct RangeFormattingProvider {
    pub id: String,
    pub owner: String,
    pub selector: DocumentSelector,
}

impl View for RangeFormattingProvider {
    type V = (Seq<char>, Seq<char>, Seq<DocumentFilter>);

    open spec fn view(&self) -> (Seq<char>, Seq<char>, Seq<DocumentFilter>) {
        (self.id@, self.owner@, self.selector@)
    }
}

impl Duplicate for RangeFormattingProvider {
    fn duplicate(&self) -> (r: Self) {
        RangeFormattingProvider {
            id: self.id.clone(),
            owner: self.owner.clone(),
            selector: self.selector.duplicate(),
        }
    }
}

impl OwnedProvider for RangeFormattingProvider {
    open spec fn id_of(v: (Seq<char>, Seq<char>, Seq<DocumentFilter>)) -> Seq<char> {
        v.0
    }

    open spec fn owner_of(v: (Seq<char>, Seq<char>, Seq<DocumentFilter>)) -> Seq<char> {
        v.1
    }

    fn id(&self) -> (r: &String) {
        &self.id
    }

    fn owner(&self) -> (r: &String) {
        &self.owner
    }
}

impl SelectableProvider for RangeFormattingProvider {
    open spec fn selects(v: (Seq<char>, Seq<char>, Seq<DocumentFilter>), language: Seq<char>, uri: Seq<char>) -> bool {
        selector_accepts(v.2, language, uri)
    }

    fn matches_document(&self, language: &str, uri: &str) -> (r: bool) {
        self.selector.matches(language, uri)
    }
}

/// A on-type formatting provider contributed by an extension.
pub struct OnTypeFormattingProvider {
    pub id: String,
    pub owner: String,
    pub selector: DocumentSelector,
    pub trigger_characters: Vec<String>,
}

impl View for OnTypeFormattingProvider {
    type V = (Seq<char>, Seq<char>, Seq<DocumentFilter>, Seq<String>);

    open spec fn view(&self) -> (Seq<char>, Seq<char>, Seq<DocumentFilter>, Seq<String>) {
        (self.id@, self.owner@, self.selector@, self.trigger_characters@)
    }
}

impl Duplicate for OnTypeFormattingProvider {
    fn duplicate(&self) -> (r: Self) {
        OnTypeFormattingProvider {
            id: self.id.clone(),
            owner: self.owner.clone(),
            selector: self.selector.duplicate(),
            trigger_characters: clone_strings(&self.trigger_characters),
        }
    }
}

impl OwnedProvider for OnTypeFormattingProvider {
    open spec fn id_of(v: (Seq<char>, Seq<char>, Seq<DocumentFilter>, Seq<String>)) -> Seq<char> {
        v.0
    }

    open spec fn owner_of(v: (Seq<char>, Seq<char>, Seq<DocumentFilter>, Seq<String>)) -> Seq<char> {
        v.1
    }

    fn id(&self) -> (r: &String) {
        &self.id
    }

    fn owner(&self) -> (r: &String) {
        &self.owner
    }
}

impl SelectableProvider for OnTypeFormattingProvider {
    open spec fn selects(v: (Seq<char>, Seq<char>, Seq<DocumentFilter>, Seq<String>), language: Seq<char>, uri: Seq<char>) -> bool {
        selector_accepts(v.2, language, uri)
    }

    fn matches_document(&self, language: &str, uri: &str) -> (r: bool) {
        self.selector.matches(language, uri)
    }
}

/// A semantic tokens provider contributed by an extension.
pub struct SemanticTokensProvider {
    pub id: String,
    pub owner: String,
    pub selector: DocumentSelector,
    pub legend: SemanticTokensLegend,
}

impl View for SemanticTokensProvider {
    type V = (Seq<char>, Seq<char>, Seq<DocumentFilter>, (Seq<String>, Seq<String>));

    open spec fn view(&self) -> (Seq<char>, Seq<char>, Seq<DocumentFilter>, (Seq<String>, Seq<String>)) {
        (self.id@, self.owner@, self.selector@, self.legend@)
    }
}

impl Duplicate for SemanticTokensProvider {
    fn duplicate(&self) -> (r: Self) {
        SemanticTokensProvider {
            id: self.id.clone(),
            owner: self.owner.clone(),
            selector: self.selector.duplicate(),
            legend: self.legend.duplicate(),
        }
    }
}

impl OwnedProvider for SemanticTokensProvider {
    open spec fn id_of(v: (Seq<char>, Seq<char>, Seq<DocumentFilter>, (Seq<String>, Seq<String>))) -> Seq<char> {
        v.0
    }

    open spec fn owner_of(v: (Seq<char>, Seq<char>, Seq<DocumentFilter>, (Seq<String>, Seq<String>))) -> Seq<char> {
        v.1
    }

    fn id(&self) -> (r: &String) {
        &self.id
    }

    fn owner(&self) -> (r: &String) {
        &self.owner
    }
}

impl SelectableProvider for SemanticTokensProvider {
    open spec fn selects(v: (Seq<char>, Seq<char>, Seq<DocumentFilter>, (Seq<String>, Seq<String>)), language: Seq<char>, uri: Seq<char>) -> bool {
        selector_accepts(v.2, language, uri)
    }

    fn matches_document(&self, language: &str, uri: &str) -> (r: bool) {
        self.selector.matches(language, uri)
    }
}

/// A inline values provider contributed by an extension.
pub struct InlineValuesProvider {
    pub id: String,
    pub owner: String,
    pub selector: DocumentSelector,
}

impl View for InlineValuesProvider {
    type V = (Seq<char>, Seq<char>, Seq<DocumentFilter>);

    open spec fn view(&self) -> (Seq<char>, Seq<char>, Seq<DocumentFilter>) {
        (self.id@, self.owner@, self.selector@)
    }
}

impl Duplicate for InlineValuesProvider {
    fn duplicate(&self) -> (r: Self) {
        InlineValuesProvider {
            id: self.id.clone(),
            owner: self.owner.clone(),
            selector: self.selector.duplicate(),
        }
    }
}

impl OwnedProvider for InlineValuesProvider {
    open spec fn id_of(v: (Seq<char>, Seq<char>, Seq<DocumentFilter>)) -> Seq<char> {
        v.0
    }

    open spec fn owner_of(v: (Seq<char>, Seq<char>, Seq<DocumentFilter>)) -> Seq<char> {
        v.1
    }

    fn id(&self) -> (r: &String) {
        &self.id
    }

    fn owner(&self) -> (r: &String) {
        &self.owner
    }
}

impl SelectableProvider for InlineValuesProvider {
    open spec fn selects(v: (Seq<char>, Seq<char>, Seq<DocumentFilter>), language: Seq<char>, uri: Seq<char>) -> bool {
        selector_accepts(v.2, language, uri)
    }

    fn matches_document(&self, language: &str, uri: &str) -> (r: bool) {
        self.selector.matches(language, uri)
    }
}

/// A color provider contributed by an extension.
pub struct ColorProvider {
    pub id: String,
    pub owner: String,
    pub selector: DocumentSelector,
}

impl View for ColorProvider {
    type V = (Seq<char>, Seq<char>, Seq<DocumentFilter>);

    open spec fn view(&self) -> (Seq<char>, Seq<char>, Seq<DocumentFilter>) {
        (self.id@, self.owner@, self.selector@)
    }
}

impl Duplicate for ColorProvider {
    fn duplicate(&self) -> (r: Self) {
        ColorProvider {
            id: self.id.clone(),
            owner: self.owner.clone(),
            selector: self.selector.duplicate(),
        }
    }
}

impl OwnedProvider for ColorProvider {
    open spec fn id_of(v: (Seq<char>, Seq<char>, Seq<DocumentFilter>)) -> Seq<char> {
        v.0
    }

    open spec fn owner_of(v: (Seq<char>, Seq<char>, Seq<DocumentFilter>)) -> Seq<char> {
        v.1
    }

    fn id(&self) -> (r: &String) {
        &self.id
    }

    fn owner(&self) -> (r: &String) {
        &self.owner
    }
}

impl SelectableProvider for ColorProvider {
    open spec fn selects(v: (Seq<char>, Seq<char>, Seq<DocumentFilter>), language: Seq<char>, uri: Seq<char>) -> bool {
        selector_accepts(v.2, language, uri)
    }

    fn matches_document(&self, language: &str, uri: &str) -> (r: bool) {
        self.selector.matches(language, uri)
    }
}

/// A selection range provider contributed by an extension.
pub struct SelectionRangeProvider {
    pub id: String,
    pub owner: String,
    pub selector: DocumentSelector,
}

impl View for SelectionRangeProvider {
    type V = (Seq<char>, Seq<char>, Seq<DocumentFilter>);

    open spec fn view(&self) -> (Seq<char>, Seq<char>, Seq<DocumentFilter>) {
        (self.id@, self.owner@, self.selector@)
    }
}

impl Duplicate for SelectionRangeProvider {
    fn duplicate(&self) -> (r: Self) {
        SelectionRangeProvider {
            id: self.id.clone(),
            owner: self.owner.clone(),
            selector: self.selector.duplicate(),
        }
    }
}

impl OwnedProvider for SelectionRangeProvider {
    open spec fn id_of(v: (Seq<char>, Seq<char>, Seq<DocumentFilter>)) -> Seq<char> {
        v.0
    }

    open spec fn owner_of(v: (Seq<char>, Seq<char>, Seq<DocumentFilter>)) -> Seq<char> {
        v.1
    }

    fn id(&self) -> (r: &String) {
        &self.id
    }

    fn owner(&self) -> (r: &String) {
        &self.owner
    }
}

impl SelectableProvider for SelectionRangeProvider {
    open spec fn selects(v: (Seq<char>, Seq<char>, Seq<DocumentFilter>), language: Seq<char>, uri: Seq<char>) -> bool {
        selector_accepts(v.2, language, uri)
    }

    fn matches_document(&self, language: &str, uri: &str) -> (r: bool) {
        self.selector.matches(language, uri)
    }
}

/// A linked editing range provider contributed by an extension.
pub struct LinkedEditingRangeProvider {
    pub id: String,
    pub owner: String,
    pub selector: DocumentSelector,
}

impl View for LinkedEditingRangeProvider {
    type V = (Seq<char>, Seq<char>, Seq<DocumentFilter>);

    open spec fn view(&self) -> (Seq<char>, Seq<char>, Seq<DocumentFilter>) {
        (self.id@, self.owner@, self.selector@)
    }
}

impl Duplicate for LinkedEditingRangeProvider {
    fn duplicate(&self) -> (r: Self) {
        LinkedEditingRangeProvider {
            id: self.id.clone(),
            owner: self.owner.clone(),
            selector: self.selector.duplicate(),
        }
    }
}

impl OwnedProvider for LinkedEditingRangeProvider {
    open spec fn id_of(v: (Seq<char>, Seq<char>, Seq<DocumentFilter>)) -> Seq<char> {
        v.0
    }

    open spec fn owner_of(v: (Seq<char>, Seq<char>, Seq<DocumentFilter>)) -> Seq<char> {
        v.1
    }

    fn id(&self) -> (r: &String) {
        &self.id
    }

    fn owner(&self) -> (r: &String) {
        &self.owner
    }
}

impl SelectableProvider for LinkedEditingRangeProvider {
    open spec fn selects(v: (Seq<char>, Seq<char>, Seq<DocumentFilter>), language: Seq<char>, uri: Seq<char>) -> bool {
        selector_accepts(v.2, language, uri)
    }

    fn matches_document(&self, language: &str, uri: &str) -> (r: bool) {
        self.selector.matches(language, uri)
    }
}

/// The registry's contents: each provider list in registration order, and
/// the diagnostics of each document that has any.
#[verifier::ext_equal]
pub struct LanguageFeaturesState {
    pub hover_providers: Seq<(Seq<char>, Seq<char>, Seq<DocumentFilter>)>,
    pub definition_providers: Seq<(Seq<char>, Seq<char>, Seq<DocumentFilter>)>,
    pub completion_providers: Seq<(Seq<char>, Seq<char>, Seq<DocumentFilter>, Seq<String>)>,
    pub code_action_providers: Seq<(Seq<char>, Seq<char>, Seq<DocumentFilter>, Seq<String>)>,
    pub signature_help_providers: Seq<(Seq<char>, Seq<char>, Seq<DocumentFilter>, Seq<String>, Seq<String>)>,
    pub references_providers: Seq<(Seq<char>, Seq<char>, Seq<DocumentFilter>)>,
    pub code_lens_providers: Seq<(Seq<char>, Seq<char>, Seq<DocumentFilter>)>,
    pub document_highlight_providers: Seq<(Seq<char>, Seq<char>, Seq<DocumentFilter>)>,
    pub folding_range_providers: Seq<(Seq<char>, Seq<char>, Seq<DocumentFilter>)>,
    pub rename_providers: Seq<(Seq<char>, Seq<char>, Seq<DocumentFilter>, bool)>,
    pub document_symbols_providers: Seq<(Seq<char>, Seq<char>, Seq<DocumentFilter>)>,
    pub workspace_symbols_providers: Seq<(Seq<char>, Seq<char>)>,
    pub document_formatting_providers: Seq<(Seq<char>, Seq<char>, Seq<DocumentFilter>)>,
    pub range_formatting_providers: Seq<(Seq<char>, Seq<char>, Seq<DocumentFilter>)>,
    pub on_type_formatting_providers: Seq<(Seq<char>, Seq<char>, Seq<DocumentFilter>, Seq<String>)>,
    pub semantic_tokens_providers: Seq<(Seq<char>, Seq<char>, Seq<DocumentFilter>, (Seq<String>, Seq<String>))>,
    pub inline_values_providers: Seq<(Seq<char>, Seq<char>, Seq<DocumentFilter>)>,
    pub color_providers: Seq<(Seq<char>, Seq<char>, Seq<DocumentFilter>)>,
    pub selection_range_providers: Seq<(Seq<char>, Seq<char>, Seq<DocumentFilter>)>,
    pub linked_editing_range_providers: Seq<(Seq<char>, Seq<char>, Seq<DocumentFilter>)>,
    pub diagnostics: Seq<(Seq<char>, Seq<DiagnosticView>)>,
}

/// A registry with nothing in it.
pub open spec fn empty_features() -> LanguageFeaturesState {
    LanguageFeaturesState {
        hover_providers: Seq::empty(),
        definition_providers: Seq::empty(),
        completion_providers: Seq::empty(),
        code_action_providers: Seq::empty(),
        signature_help_providers: Seq::empty(),
        references_providers: Seq::empty(),
        code_lens_providers: Seq::empty(),
        document_highlight_providers: Seq::empty(),
        folding_range_providers: Seq::empty(),
        rename_providers: Seq::empty(),
        document_symbols_providers: Seq::empty(),
        workspace_symbols_providers: Seq::empty(),
        document_formatting_providers: Seq::empty(),
        range_formatting_providers: Seq::empty(),
        on_type_formatting_providers: Seq::empty(),
        semantic_tokens_providers: Seq::empty(),
        inline_values_providers: Seq::empty(),
        color_providers: Seq::empty(),
        selection_range_providers: Seq::empty(),
        linked_editing_range_providers: Seq::empty(),
        diagnostics: Seq::empty(),
    }
}

/// The registry after every provider and diagnostic of `owner` is removed.
pub open spec fn without_owner(s: LanguageFeaturesState, owner: Seq<char>) -> LanguageFeaturesState {
    LanguageFeaturesState {
        hover_providers: s.hover_providers.filter(not_owned_by::<HoverProvider>(owner)),
        definition_providers: s.definition_providers.filter(not_owned_by::<DefinitionProvider>(owner)),
        completion_providers: s.completion_providers.filter(not_owned_by::<CompletionProvider>(owner)),
        code_action_providers: s.code_action_providers.filter(not_owned_by::<CodeActionProvider>(owner)),
        signature_help_providers: s.signature_help_providers.filter(not_owned_by::<SignatureHelpProvider>(owner)),
        references_providers: s.references_providers.filter(not_owned_by::<ReferencesProvider>(owner)),
        code_lens_providers: s.code_lens_providers.filter(not_owned_by::<CodeLensProvider>(owner)),
        document_highlight_providers: s.document_highlight_providers.filter(not_owned_by::<DocumentHighlightProvider>(owner)),
        folding_range_providers: s.folding_range_providers.filter(not_owned_by::<FoldingRangeProvider>(owner)),
        rename_providers: s.rename_providers.filter(not_owned_by::<RenameProvider>(owner)),
        document_symbols_providers: s.document_symbols_providers.filter(not_owned_by::<DocumentSymbolsProvider>(owner)),
        workspace_symbols_providers: s.workspace_symbols_providers.filter(not_owned_by::<WorkspaceSymbolsProvider>(owner)),
        document_formatting_providers: s.document_formatting_providers.filter(not_owned_by::<DocumentFormattingProvider>(owner)),
        range_formatting_providers: s.range_formatting_providers.filter(not_owned_by::<RangeFormattingProvider>(owner)),
        on_type_formatting_providers: s.on_type_formatting_providers.filter(not_owned_by::<OnTypeFormattingProvider>(owner)),
        semantic_tokens_providers: s.semantic_tokens_providers.filter(not_owned_by::<SemanticTokensProvider>(owner)),
        inline_values_providers: s.inline_values_providers.filter(not_owned_by::<InlineValuesProvider>(owner)),
        color_providers: s.color_providers.filter(not_owned_by::<ColorProvider>(owner)),
        selection_range_providers: s.selection_range_providers.filter(not_owned_by::<SelectionRangeProvider>(owner)),
        linked_editing_range_providers: s.linked_editing_range_providers.filter(not_owned_by::<LinkedEditingRangeProvider>(owner)),
        diagnostics: clear_diagnostics_spec(s.diagnostics, owner),
    }
}

/// Language features contributed by extensions.
pub struct LanguageFeaturesRegistry {
    hover_providers: Vec<HoverProvider>,
    definition_providers: Vec<DefinitionProvider>,
    completion_providers: Vec<CompletionProvider>,
    code_action_providers: Vec<CodeActionProvider>,
    signature_help_providers: Vec<SignatureHelpProvider>,
    references_providers: Vec<ReferencesProvider>,
    code_lens_providers: Vec<CodeLensProvider>,
    document_highlight_providers: Vec<DocumentHighlightProvider>,
    folding_range_providers: Vec<FoldingRangeProvider>,
    rename_providers: Vec<RenameProvider>,
    document_symbols_providers: Vec<DocumentSymbolsProvider>,
    workspace_symbols_providers: Vec<WorkspaceSymbolsProvider>,
    document_formatting_providers: Vec<DocumentFormattingProvider>,
    range_formatting_providers: Vec<RangeFormattingProvider>,
    on_type_formatting_providers: Vec<OnTypeFormattingProvider>,
    semantic_tokens_providers: Vec<SemanticTokensProvider>,
    inline_values_providers: Vec<InlineValuesProvider>,
    color_providers: Vec<ColorProvider>,
    selection_range_providers: Vec<SelectionRangeProvider>,
    linked_editing_range_providers: Vec<LinkedEditingRangeProvider>,
    diagnostics: Store<DiagnosticList>,
}

impl View for LanguageFeaturesRegistry {
    type V = LanguageFeaturesState;

    closed spec fn view(&self) -> LanguageFeaturesState {
        LanguageFeaturesState {
            hover_providers: views(self.hover_providers@),
            definition_providers: views(self.definition_providers@),
            completion_providers: views(self.completion_providers@),
            code_action_providers: views(self.code_action_providers@),
            signature_help_providers: views(self.signature_help_providers@),
            references_providers: views(self.references_providers@),
            code_lens_providers: views(self.code_lens_providers@),
            document_highlight_providers: views(self.document_highlight_providers@),
            folding_range_providers: views(self.folding_range_providers@),
            rename_providers: views(self.rename_providers@),
            document_symbols_providers: views(self.document_symbols_providers@),
            workspace_symbols_providers: views(self.workspace_symbols_providers@),
            document_formatting_providers: views(self.document_formatting_providers@),
            range_formatting_providers: views(self.range_formatting_providers@),
            on_type_formatting_providers: views(self.on_type_formatting_providers@),
            semantic_tokens_providers: views(self.semantic_tokens_providers@),
            inline_values_providers: views(self.inline_values_providers@),
            color_providers: views(self.color_providers@),
            selection_range_providers: views(self.selection_range_providers@),
            linked_editing_range_providers: views(self.linked_editing_range_providers@),
            diagnostics: self.diagnostics.entries(),
        }
    }
}

impl LanguageFeaturesRegistry {
    pub closed spec fn wf(&self) -> bool {
        &&& self.diagnostics.wf()
        &&& diagnostics_wf(self.diagnostics.entries())
    }

    /// An empty registry.
    pub fn new() -> (r: Self)
        ensures
            r.wf(),
            r@ == empty_features(),
    {
        let r = LanguageFeaturesRegistry {
            hover_providers: Vec::new(),
            definition_providers: Vec::new(),
            completion_providers: Vec::new(),
            code_action_providers: Vec::new(),
            signature_help_providers: Vec::new(),
            references_providers: Vec::new(),
            code_lens_providers: Vec::new(),
            document_highlight_providers: Vec::new(),
            folding_range_providers: Vec::new(),
            rename_providers: Vec::new(),
            document_symbols_providers: Vec::new(),
            workspace_symbols_providers: Vec::new(),
            document_formatting_providers: Vec::new(),
            range_formatting_providers: Vec::new(),
            on_type_formatting_providers: Vec::new(),
            semantic_tokens_providers: Vec::new(),
            inline_values_providers: Vec::new(),
            color_providers: Vec::new(),
            selection_range_providers: Vec::new(),
            linked_editing_range_providers: Vec::new(),
            diagnostics: Store::new(),
        };
        assert(r@ =~= empty_features());
        r
    }

    /// Adds a hover provider; gives back its id.
    pub fn register_hover_provider(&mut self, provider: HoverProvider) -> (r: Result<String, String>)
        requires
            old(self).wf(),
        ensures
            final(self).wf(),
            final(self)@ == (LanguageFeaturesState { hover_providers: old(self)@.hover_providers.push(provider@), ..old(self)@ }),
            r matches Ok(id) && id@ == provider.id@,
    {
        let r = register_provider(&mut self.hover_providers, provider);
        assert(self@ =~= (LanguageFeaturesState { hover_providers: old(self)@.hover_providers.push(provider@), ..old(self)@ }));
        r
    }

    /// Adds a definition provider; gives back its id.
    pub fn register_definition_provider(&mut self, provider: DefinitionProvider) -> (r: Result<String, String>)
        requires
            old(self).wf(),
        ensures
            final(self).wf(),
            final(self)@ == (LanguageFeaturesState { definition_providers: old(self)@.definition_providers.push(provider@), ..old(self)@ }),
            r matches Ok(id) && id@ == provider.id@,
    {
        let r = register_provider(&mut self.definition_providers, provider);
        assert(self@ =~= (LanguageFeaturesState { definition_providers: old(self)@.definition_providers.push(provider@), ..old(self)@ }));
        r
    }

    /// Adds a completion provider; gives back its id.
    pub fn register_completion_provider(&mut self, provider: CompletionProvider) -> (r: Result<String, String>)
        requires
            old(self).wf(),
        ensures
            final(self).wf(),
            final(self)@ == (LanguageFeaturesState { completion_providers: old(self)@.completion_providers.push(provider@), ..old(self)@ }),
            r matches Ok(id) && id@ == provider.id@,
    {
        let r = register_provider(&mut self.completion_providers, provider);
        assert(self@ =~= (LanguageFeaturesState { completion_providers: old(self)@.completion_providers.push(provider@), ..old(self)@ }));
        r
    }

    /// Adds a code action provider; gives back its id.
    pub fn register_code_action_provider(&mut self, provider: CodeActionProvider) -> (r: Result<String, String>)
        requires
            old(self).wf(),
        ensures
            final(self).wf(),
            final(self)@ == (LanguageFeaturesState { code_action_providers: old(self)@.code_action_providers.push(provider@), ..old(self)@ }),
            r matches Ok(id) && id@ == provider.id@,
    {
        let r = register_provider(&mut self.code_action_providers, provider);
        assert(self@ =~= (LanguageFeaturesState { code_action_providers: old(self)@.code_action_providers.push(provider@), ..old(self)@ }));
        r
    }

    /// Adds a signature help provider; gives back its id.
    pub fn register_signature_help_provider(&mut self, provider: SignatureHelpProvider) -> (r: Result<String, String>)
        requires
            old(self).wf(),
        ensures
            final(self).wf(),
            final(self)@ == (LanguageFeaturesState { signature_help_providers: old(self)@.signature_help_providers.push(provider@), ..old(self)@ }),
            r matches Ok(id) && id@ == provider.id@,
    {
        let r = register_provider(&mut self.signature_help_providers, provider);
        assert(self@ =~= (LanguageFeaturesState { signature_help_providers: old(self)@.signature_help_providers.push(provider@), ..old(self)@ }));
        r
    }

    /// Adds a references provider; gives back its id.
    pub fn register_references_provider(&mut self, provider: ReferencesProvider) -> (r: Result<String, String>)
        requires
            old(self).wf(),
        ensures
            final(self).wf(),
            final(self)@ == (LanguageFeaturesState { references_providers: old(self)@.references_providers.push(provider@), ..old(self)@ }),
            r matches Ok(id) && id@ == provider.id@,
    {
        let r = register_provider(&mut self.references_providers, provider);
        assert(self@ =~= (LanguageFeaturesState { references_providers: old(self)@.references_providers.push(provider@), ..old(self)@ }));
        r
    }

    /// Adds a code lens provider; gives back its id.
    pub fn register_code_lens_provider(&mut self, provider: CodeLensProvider) -> (r: Result<String, String>)
        requires
            old(self).wf(),
        ensures
            final(self).wf(),
            final(self)@ == (LanguageFeaturesState { code_lens_providers: old(self)@.code_lens_providers.push(provider@), ..old(self)@ }),
            r matches Ok(id) && id@ == provider.id@,
    {
        let r = register_provider(&mut self.code_lens_providers, provider);
        assert(self@ =~= (LanguageFeaturesState { code_lens_providers: old(self)@.code_lens_providers.push(provider@), ..old(self)@ }));
        r
    }

    /// Adds a document highlight provider; gives back its id.
    pub fn register_document_highlight_provider(&mut self, provider: DocumentHighlightProvider) -> (r: Result<String, String>)
        requires
            old(self).wf(),
        ensures
            final(self).wf(),
            final(self)@ == (LanguageFeaturesState { document_highlight_providers: old(self)@.document_highlight_providers.push(provider@), ..old(self)@ }),
            r matches Ok(id) && id@ == provider.id@,
    {
        let r = register_provider(&mut self.document_highlight_providers, provider);
        assert(self@ =~= (LanguageFeaturesState { document_highlight_providers: old(self)@.document_highlight_providers.push(provider@), ..old(self)@ }));
        r
    }

    /// Adds a folding range provider; gives back its id.
    pub fn register_folding_range_provider(&mut self, provider: FoldingRangeProvider) -> (r: Result<String, String>)
        requires
            old(self).wf(),
        ensures
            final(self).wf(),
            final(self)@ == (LanguageFeaturesState { folding_range_providers: old(self)@.folding_range_providers.push(provider@), ..old(self)@ }),
            r matches Ok(id) && id@ == provider.id@,
    {
        let r = register_provider(&mut self.folding_range_providers, provider);
        assert(self@ =~= (LanguageFeaturesState { folding_range_providers: old(self)@.folding_range_providers.push(provider@), ..old(self)@ }));
        r
    }

    /// Adds a rename provider; gives back its id.
    pub fn register_rename_provider(&mut self, provider: RenameProvider) -> (r: Result<String, String>)
        requires
            old(self).wf(),
        ensures
            final(self).wf(),
            final(self)@ == (LanguageFeaturesState { rename_providers: old(self)@.rename_providers.push(provider@), ..old(self)@ }),
            r matches Ok(id) && id@ == provider.id@,
    {
        let r = register_provider(&mut self.rename_providers, provider);
        assert(self@ =~= (LanguageFeaturesState { rename_providers: old(self)@.rename_providers.push(provider@), ..old(self)@ }));
        r
    }

    /// Adds a document symbols provider; gives back its id.
    pub fn register_document_symbols_provider(&mut self, provider: DocumentSymbolsProvider) -> (r: Result<String, String>)
        requires
            old(self).wf(),
        ensures
            final(self).wf(),
            final(self)@ == (LanguageFeaturesState { document_symbols_providers: old(self)@.document_symbols_providers.push(provider@), ..old(self)@ }),
            r matches Ok(id) && id@ == provider.id@,
    {
        let r = register_provider(&mut self.document_symbols_providers, provider);
        assert(self@ =~= (LanguageFeaturesState { document_symbols_providers: old(self)@.document_symbols_providers.push(provider@), ..old(self)@ }));
        r
    }

    /// Adds a workspace symbols provider; gives back its id.
    pub fn register_workspace_symbols_provider(&mut self, provider: WorkspaceSymbolsProvider) -> (r: Result<String, String>)
        requires
            old(self).wf(),
        ensures
            final(self).wf(),
            final(self)@ == (LanguageFeaturesState { workspace_symbols_providers: old(self)@.workspace_symbols_providers.push(provider@), ..old(self)@ }),
            r matches Ok(id) && id@ == provider.id@,
    {
        let r = register_provider(&mut self.workspace_symbols_providers, provider);
        assert(self@ =~= (LanguageFeaturesState { workspace_symbols_providers: old(self)@.workspace_symbols_providers.push(provider@), ..old(self)@ }));
        r
    }

    /// Adds a document formatting provider; gives back its id.
    pub fn register_document_formatting_provider(&mut self, provider: DocumentFormattingProvider) -> (r: Result<String, String>)
        requires
            old(self).wf(),
        ensures
            final(self).wf(),
            final(self)@ == (LanguageFeaturesState { document_formatting_providers: old(self)@.document_formatting_providers.push(provider@), ..old(self)@ }),
            r matches Ok(id) && id@ == provider.id@,
    {
        let r = register_provider(&mut self.document_formatting_providers, provider);
        assert(self@ =~= (LanguageFeaturesState { document_formatting_providers: old(self)@.document_formatting_providers.push(provider@), ..old(self)@ }));
        r
    }

    /// Adds a range formatting provider; gives back its id.
    pub fn register_range_formatting_provider(&mut self, provider: RangeFormattingProvider) -> (r: Result<String, String>)
        requires
            old(self).wf(),
        ensures
            final(self).wf(),
            final(self)@ == (LanguageFeaturesState { range_formatting_providers: old(self)@.range_formatting_providers.push(provider@), ..old(self)@ }),
            r matches Ok(id) && id@ == provider.id@,
    {
        let r = register_provider(&mut self.range_formatting_providers, provider);
        assert(self@ =~= (LanguageFeaturesState { range_formatting_providers: old(self)@.range_formatting_providers.push(provider@), ..old(self)@ }));
        r
    }

    /// Adds a on-type formatting provider; gives back its id.
    pub fn register_on_type_formatting_provider(&mut self, provider: OnTypeFormattingProvider) -> (r: Result<String, String>)
        requires
            old(self).wf(),
        ensures
            final(self).wf(),
            final(self)@ == (LanguageFeaturesState { on_type_formatting_providers: old(self)@.on_type_formatting_providers.push(provider@), ..old(self)@ }),
            r matches Ok(id) && id@ == provider.id@,
    {
        let r = register_provider(&mut self.on_type_formatting_providers, provider);
        assert(self@ =~= (LanguageFeaturesState { on_type_formatting_providers: old(self)@.on_type_formatting_providers.push(provider@), ..old(self)@ }));
        r
    }

    /// Adds a semantic tokens provider; gives back its id.
    pub fn register_semantic_tokens_provider(&mut self, provider: SemanticTokensProvider) -> (r: Result<String, String>)
        requires
            old(self).wf(),
        ensures
            final(self).wf(),
            final(self)@ == (LanguageFeaturesState { semantic_tokens_providers: old(self)@.semantic_tokens_providers.push(provider@), ..old(self)@ }),
            r matches Ok(id) && id@ == provider.id@,
    {
        let r = register_provider(&mut self.semantic_tokens_providers, provider);
        assert(self@ =~= (LanguageFeaturesState { semantic_tokens_providers: old(self)@.semantic_tokens_providers.push(provider@), ..old(self)@ }));
        r
    }

    /// Adds a inline values provider; gives back its id.
    pub fn register_inline_values_provider(&mut self, provider: InlineValuesProvider) -> (r: Result<String, String>)
        requires
            old(self).wf(),
        ensures
            final(self).wf(),
            final(self)@ == (LanguageFeaturesState { inline_values_providers: old(self)@.inline_values_providers.push(provider@), ..old(self)@ }),
            r matches Ok(id) && id@ == provider.id@,
    {
        let r = register_provider(&mut self.inline_values_providers, provider);
        assert(self@ =~= (LanguageFeaturesState { inline_values_providers: old(self)@.inline_values_providers.push(provider@), ..old(self)@ }));
        r
    }

    /// Adds a color provider; gives back its id.
    pub fn register_color_provider(&mut self, provider: ColorProvider) -> (r: Result<String, String>)
        requires
            old(self).wf(),
        ensures
            final(self).wf(),
            final(self)@ == (LanguageFeaturesState { color_providers: old(self)@.color_providers.push(provider@), ..old(self)@ }),
            r matches Ok(id) && id@ == provider.id@,
    {
        let r = register_provider(&mut self.color_providers, provider);
        assert(self@ =~= (LanguageFeaturesState { color_providers: old(self)@.color_providers.push(provider@), ..old(self)@ }));
        r
    }

    /// Adds a selection range provider; gives back its id.
    pub fn register_selection_range_provider(&mut self, provider: SelectionRangeProvider) -> (r: Result<String, String>)
        requires
            old(self).wf(),
        ensures
            final(self).wf(),
            final(self)@ == (LanguageFeaturesState { selection_range_providers: old(self)@.selection_range_providers.push(provider@), ..old(self)@ }),
            r matches Ok(id) && id@ == provider.id@,
    {
        let r = register_provider(&mut self.selection_range_providers, provider);
        assert(self@ =~= (LanguageFeaturesState { selection_range_providers: old(self)@.selection_range_providers.push(provider@), ..old(self)@ }));
        r
    }

    /// Adds a linked editing range provider; gives back its id.
    pub fn register_linked_editing_range_provider(&mut self, provider: LinkedEditingRangeProvider) -> (r: Result<String, String>)
        requires
            old(self).wf(),
        ensures
            final(self).wf(),
            final(self)@ == (LanguageFeaturesState { linked_editing_range_providers: old(self)@.linked_editing_range_providers.push(provider@), ..old(self)@ }),
            r matches Ok(id) && id@ == provider.id@,
    {
        let r = register_provider(&mut self.linked_editing_range_providers, provider);
        assert(self@ =~= (LanguageFeaturesState { linked_editing_range_providers: old(self)@.linked_editing_range_providers.push(provider@), ..old(self)@ }));
        r
    }

    /// The hover providers whose selector accepts the document, in registration order.
    pub fn get_hover_providers(&self, language: &str, uri: &str) -> (r: Vec<HoverProvider>)
        ensures
            views(r@) == self@.hover_providers.filter(selecting::<HoverProvider>(language@, uri@)),
    {
        get_matching_providers(&self.hover_providers, language, uri)
    }

    /// The definition providers whose selector accepts the document, in registration order.
    pub fn get_definition_providers(&self, language: &str, uri: &str) -> (r: Vec<DefinitionProvider>)
        ensures
            views(r@) == self@.definition_providers.filter(selecting::<DefinitionProvider>(language@, uri@)),
    {
        get_matching_providers(&self.definition_providers, language, uri)
    }

    /// The completion providers whose selector accepts the document, in registration order.
    pub fn get_completion_providers(&self, language: &str, uri: &str) -> (r: Vec<CompletionProvider>)
        ensures
            views(r@) == self@.completion_providers.filter(selecting::<CompletionProvider>(language@, uri@)),
    {
        get_matching_providers(&self.completion_providers, language, uri)
    }

    /// The code action providers whose selector accepts the document, in registration order.
    pub fn get_code_action_providers(&self, language: &str, uri: &str) -> (r: Vec<CodeActionProvider>)
        ensures
            views(r@) == self@.code_action_providers.filter(selecting::<CodeActionProvider>(language@, uri@)),
    {
        get_matching_providers(&self.code_action_providers, language, uri)
    }

    /// The signature help providers whose selector accepts the document, in registration order.
    pub fn get_signature_help_providers(&self, language: &str, uri: &str) -> (r: Vec<SignatureHelpProvider>)
        ensures
            views(r@) == self@.signature_help_providers.filter(selecting::<SignatureHelpProvider>(language@, uri@)),
    {
        get_matching_providers(&self.signature_help_providers, language, uri)
    }

    /// The references providers whose selector accepts the document, in registration order.
    pub fn get_references_providers(&self, language: &str, uri: &str) -> (r: Vec<ReferencesProvider>)
        ensures
            views(r@) == self@.references_providers.filter(selecting::<ReferencesProvider>(language@, uri@)),
    {
        get_matching_providers(&self.references_providers, language, uri)
    }

    /// The code lens providers whose selector accepts the document, in registration order.
    pub fn get_code_lens_providers(&self, language: &str, uri: &str) -> (r: Vec<CodeLensProvider>)
        ensures
            views(r@) == self@.code_lens_providers.filter(selecting::<CodeLensProvider>(language@, uri@)),
    {
        get_matching_providers(&self.code_lens_providers, language, uri)
    }

    /// The document highlight providers whose selector accepts the document, in registration order.
    pub fn get_document_highlight_providers(&self, language: &str, uri: &str) -> (r: Vec<DocumentHighlightProvider>)
        ensures
            views(r@) == self@.document_highlight_providers.filter(selecting::<DocumentHighlightProvider>(language@, uri@)),
    {
        get_matching_providers(&self.document_highlight_providers, language, uri)
    }

    /// The folding range providers whose selector accepts the document, in registration order.
    pub fn get_folding_range_providers(&self, language: &str, uri: &str) -> (r: Vec<FoldingRangeProvider>)
        ensures
            views(r@) == self@.folding_range_providers.filter(selecting::<FoldingRangeProvider>(language@, uri@)),
    {
        get_matching_providers(&self.folding_range_providers, language, uri)
    }

    /// The rename providers whose selector accepts the document, in registration order.
    pub fn get_rename_providers(&self, language: &str, uri: &str) -> (r: Vec<RenameProvider>)
        ensures
            views(r@) == self@.rename_providers.filter(selecting::<RenameProvider>(language@, uri@)),
    {
        get_matching_providers(&self.rename_providers, language, uri)
    }

    /// The document symbols providers whose selector accepts the document, in registration order.
    pub fn get_document_symbols_providers(&self, language: &str, uri: &str) -> (r: Vec<DocumentSymbolsProvider>)
        ensures
            views(r@) == self@.document_symbols_providers.filter(selecting::<DocumentSymbolsProvider>(language@, uri@)),
    {
        get_matching_providers(&self.document_symbols_providers, language, uri)
    }

    /// The document formatting providers whose selector accepts the document, in registration order.
    pub fn get_document_formatting_providers(&self, language: &str, uri: &str) -> (r: Vec<DocumentFormattingProvider>)
        ensures
            views(r@) == self@.document_formatting_providers.filter(selecting::<DocumentFormattingProvider>(language@, uri@)),
    {
        get_matching_providers(&self.document_formatting_providers, language, uri)
    }

    /// The range formatting providers whose selector accepts the document, in registration order.
    pub fn get_range_formatting_providers(&self, language: &str, uri: &str) -> (r: Vec<RangeFormattingProvider>)
        ensures
            views(r@) == self@.range_formatting_providers.filter(selecting::<RangeFormattingProvider>(language@, uri@)),
    {
        get_matching_providers(&self.range_formatting_providers, language, uri)
    }

    /// The on-type formatting providers whose selector accepts the document, in registration order.
    pub fn get_on_type_formatting_providers(&self, language: &str, uri: &str) -> (r: Vec<OnTypeFormattingProvider>)
        ensures
            views(r@) == self@.on_type_formatting_providers.filter(selecting::<OnTypeFormattingProvider>(language@, uri@)),
    {
        get_matching_providers(&self.on_type_formatting_providers, language, uri)
    }

    /// The semantic tokens providers whose selector accepts the document, in registration order.
    pub fn get_semantic_tokens_providers(&self, language: &str, uri: &str) -> (r: Vec<SemanticTokensProvider>)
        ensures
            views(r@) == self@.semantic_tokens_providers.filter(selecting::<SemanticTokensProvider>(language@, uri@)),
    {
        get_matching_providers(&self.semantic_tokens_providers, language, uri)
    }

    /// The inline values providers whose selector accepts the document, in registration order.
    pub fn get_inline_values_providers(&self, language: &str, uri: &str) -> (r: Vec<InlineValuesProvider>)
        ensures
            views(r@) == self@.inline_values_providers.filter(selecting::<InlineValuesProvider>(language@, uri@)),
    {
        get_matching_providers(&self.inline_values_providers, language, uri)
    }

    /// The color providers whose selector accepts the document, in registration order.
    pub fn get_color_providers(&self, language: &str, uri: &str) -> (r: Vec<ColorProvider>)
        ensures
            views(r@) == self@.color_providers.filter(selecting::<ColorProvider>(language@, uri@)),
    {
        get_matching_providers(&self.color_providers, language, uri)
    }

    /// The selection range providers whose selector accepts the document, in registration order.
    pub fn get_selection_range_providers(&self, language: &str, uri: &str) -> (r: Vec<SelectionRangeProvider>)
        ensures
            views(r@) == self@.selection_range_providers.filter(selecting::<SelectionRangeProvider>(language@, uri@)),
    {
        get_matching_providers(&self.selection_range_providers, language, uri)
    }

    /// The linked editing range providers whose selector accepts the document, in registration order.
    pub fn get_linked_editing_range_providers(&self, language: &str, uri: &str) -> (r: Vec<LinkedEditingRangeProvider>)
        ensures
            views(r@) == self@.linked_editing_range_providers.filter(selecting::<LinkedEditingRangeProvider>(language@, uri@)),
    {
        get_matching_providers(&self.linked_editing_range_providers, language, uri)
    }

    /// Every workspace symbols provider, in registration order.
    pub fn get_workspace_symbols_providers(&self) -> (r: Vec<WorkspaceSymbolsProvider>)
        ensures
            views(r@) == self@.workspace_symbols_providers,
    {
        get_all_providers(&self.workspace_symbols_providers)
    }

    /// Removes every provider and every diagnostic of `owner`.
    pub fn clear_owner_providers(&mut self, owner: &str) -> (r: Result<(), String>)
        requires
            old(self).wf(),
        ensures
            final(self).wf(),
            final(self)@ == without_owner(old(self)@, owner@),
            r is Ok,
    {
        clear_owned_provider_list(&mut self.hover_providers, owner);
        clear_owned_provider_list(&mut self.definition_providers, owner);
        clear_owned_provider_list(&mut self.completion_providers, owner);
        clear_owned_provider_list(&mut self.code_action_providers, owner);
        clear_owned_provider_list(&mut self.signature_help_providers, owner);
        clear_owned_provider_list(&mut self.references_providers, owner);
        clear_owned_provider_list(&mut self.code_lens_providers, owner);
        clear_owned_provider_list(&mut self.document_highlight_providers, owner);
        clear_owned_provider_list(&mut self.folding_range_providers, owner);
        clear_owned_provider_list(&mut self.rename_providers, owner);
        clear_owned_provider_list(&mut self.document_symbols_providers, owner);
        clear_owned_provider_list(&mut self.workspace_symbols_providers, owner);
        clear_owned_provider_list(&mut self.document_formatting_providers, owner);
        clear_owned_provider_list(&mut self.range_formatting_providers, owner);
        clear_owned_provider_list(&mut self.on_type_formatting_providers, owner);
        clear_owned_provider_list(&mut self.semantic_tokens_providers, owner);
        clear_owned_provider_list(&mut self.inline_values_providers, owner);
        clear_owned_provider_list(&mut self.color_providers, owner);
        clear_owned_provider_list(&mut self.selection_range_providers, owner);
        clear_owned_provider_list(&mut self.linked_editing_range_providers, owner);
        let _ = self.clear_diagnostics(owner);
        assert(self@ =~= without_owner(old(self)@, owner@));
        Ok(())
    }
}
impl LanguageFeaturesRegistry {
    /// Replaces the diagnostics of `uri`; an empty list removes them.
    pub fn publish_diagnostics(&mut self, uri: String, diagnostics: Vec<Diagnostic>) -> (r: Result<
        (),
        String,
    >)
        requires
            old(self).wf(),
        ensures
            final(self).wf(),
            final(self)@ == (LanguageFeaturesState {
                diagnostics: publish_spec(old(self)@.diagnostics, uri@, views(diagnostics@)),
                ..old(self)@
            }),
            r is Ok,
    {
        let ghost before = self.diagnostics.entries();
        let ghost list = views(diagnostics@);
        let ghost key = uri@;
        if diagnostics.len() == 0 {
            let _ = self.diagnostics.remove(uri.as_str());
            proof {
                lemma_remove_keeps_nonempty(before, key);
            }
        } else {
            self.diagnostics.insert(uri, DiagnosticList { items: diagnostics });
            proof {
                lemma_insert_keeps_nonempty(before, key, list);
            }
        }
        assert(self@ =~= (LanguageFeaturesState {
            diagnostics: publish_spec(old(self)@.diagnostics, key, list),
            ..old(self)@
        }));
        Ok(())
    }

    /// Copies of the diagnostics published for `uri`.
    pub fn get_diagnostics(&self, uri: &str) -> (r: Vec<Diagnostic>)
        ensures
            views(r@) == diagnostics_of(self@.diagnostics, uri@),
    {
        match self.diagnostics.get_ref(uri) {
            Some(l) => {
                let c = duplicate_all(&l.items);
                assert(views(c@) =~= l@);
                c
            },
            None => {
                let v: Vec<Diagnostic> = Vec::new();
                assert(views(v@) =~= Seq::<DiagnosticView>::empty());
                v
            },
        }
    }

    /// Every document with diagnostics, with copies of them.
    pub fn get_all_diagnostics(&self) -> (r: Vec<(String, Vec<Diagnostic>)>)
        ensures
            r@.map_values(|e: (String, Vec<Diagnostic>)| (e.0@, views(e.1@)))
                == self@.diagnostics,
    {
        let ghost d = self.diagnostics.entries();
        let mut out: Vec<(String, Vec<Diagnostic>)> = Vec::new();
        let mut i: usize = 0;
        while i < self.diagnostics.len()
            invariant
                i <= d.len(),
                d == self.diagnostics.entries(),
                out@.len() == i,
                forall|j: int|
                    0 <= j < i ==> (#[trigger] out@[j]).0@ == d[j].0 && views(out@[j].1@)
                        == d[j].1,
            decreases d.len() - i,
        {
            let (k, l) = self.diagnostics.entry_at(i);
            let c = duplicate_all(&l.items);
            assert(views(c@) =~= l@);
            out.push((k.clone(), c));
            i = i + 1;
        }
        assert(out@.map_values(|e: (String, Vec<Diagnostic>)| (e.0@, views(e.1@))) =~= d);
        out
    }

    /// Removes the diagnostics reported by `owner`; documents left with none
    /// lose their entry.
    pub fn clear_diagnostics(&mut self, owner: &str) -> (r: Result<(), String>)
        requires
            old(self).wf(),
        ensures
            final(self).wf(),
            final(self)@ == (LanguageFeaturesState {
                diagnostics: clear_diagnostics_spec(old(self)@.diagnostics, owner@),
                ..old(self)@
            }),
            r is Ok,
    {
        let mut store: Store<DiagnosticList> = Store::new();
        std::mem::swap(&mut store, &mut self.diagnostics);
        let ghost before = store.entries();
        let ghost p = not_from(owner@);
        let ghost mapped = before.map_values(
            |e: (Seq<char>, Seq<DiagnosticView>)| (e.0, e.1.filter(p)),
        );
        let n = store.len();
        let mut keep: Vec<bool> = Vec::new();
        let mut i: usize = 0;
        while i < n
            invariant
                store.wf(),
                n == before.len(),
                i <= n,
                store.entries().len() == n,
                p == not_from(owner@),
                mapped == before.map_values(
                    |e: (Seq<char>, Seq<DiagnosticView>)| (e.0, e.1.filter(p)),
                ),
                keep@.len() == i,
                forall|k: int| 0 <= k < i ==> keep@[k] == (mapped[k].1.len() > 0),
                forall|k: int|
                    0 <= k < n ==> (#[trigger] store.entries()[k]) == if k < i {
                        mapped[k]
                    } else {
                        before[k]
                    },
            decreases n - i,
        {
            let (_, list) = store.entry_at(i);
            let ghost s = list@;
            let mut kept: Vec<Diagnostic> = Vec::new();
            let mut j: usize = 0;
            assert(s.take(0).filter(p) =~= Seq::<DiagnosticView>::empty()) by {
                reveal(Seq::filter);
            }
            while j < list.items.len()
                invariant
                    j <= list.items@.len(),
                    s == views(list.items@),
                    p == not_from(owner@),
                    views(kept@) == s.take(j as int).filter(p),
                decreases list.items@.len() - j,
            {
                proof {
                    assert(s.take(j + 1) =~= s.take(j as int).push(s[j as int]));
                    s.take(j as int).lemma_filter_push(s[j as int], p);
                }
                let from_owner = match &list.items[j].source {
                    Some(src) => str_eq(src.as_str(), owner),
                    None => false,
                };
                if !from_owner {
                    let c = list.items[j].duplicate();
                    kept.push(c);
                    assert(views(kept@) =~= s.take(j as int).filter(p).push(s[j as int]));
                }
                j = j + 1;
            }
            assert(s.take(j as int) =~= s);
            keep.push(kept.len() > 0);
            store.set_at(i, DiagnosticList { items: kept });
            i = i + 1;
        }
        assert(store.entries() =~= mapped);
        store.retain_mask(&keep);
        proof {
            crate::store::lemma_filter_mask_is_filter(
                mapped,
                keep@,
                |e: (Seq<char>, Seq<DiagnosticView>)| e.1.len() > 0,
            );
            lemma_nonempty_after_filter(mapped);
        }
        self.diagnostics = store;
        assert(self@ =~= (LanguageFeaturesState {
            diagnostics: clear_diagnostics_spec(old(self)@.diagnostics, owner@),
            ..old(self)@
        }));
        Ok(())
    }
}

proof fn lemma_remove_keeps_nonempty(d: Seq<(Seq<char>, Seq<DiagnosticView>)>, key: Seq<char>)
    requires
        diagnostics_wf(d),
    ensures
        diagnostics_wf(store_remove(d, key)),
{
    let i = crate::store::key_index(d, key);
    crate::store::lemma_key_index_bounds(d, key);
    if i < d.len() {
        let r = d.remove(i);
        assert forall|k: int| 0 <= k < r.len() implies (#[trigger] r[k]).1.len() > 0 by {
            if k < i {
                assert(r[k] == d[k]);
            } else {
                assert(r[k] == d[k + 1]);
            }
        }
    }
}

proof fn lemma_insert_keeps_nonempty(
    d: Seq<(Seq<char>, Seq<DiagnosticView>)>,
    key: Seq<char>,
    list: Seq<DiagnosticView>,
)
    requires
        diagnostics_wf(d),
        list.len() > 0,
    ensures
        diagnostics_wf(store_insert(d, key, list)),
{
    let r = store_insert(d, key, list);
    crate::store::lemma_key_index_bounds(d, key);
    assert forall|k: int| 0 <= k < r.len() implies (#[trigger] r[k]).1.len() > 0 by {
        if k < d.len() && k != crate::store::key_index(d, key) {
            assert(r[k] == d[k]);
        }
    }
}

proof fn lemma_nonempty_after_filter(d: Seq<(Seq<char>, Seq<DiagnosticView>)>)
    ensures
        diagnostics_wf(d.filter(|e: (Seq<char>, Seq<DiagnosticView>)| e.1.len() > 0)),
{
    broadcast use vstd::seq_lib::group_filter_ensures;

    let f = d.filter(|e: (Seq<char>, Seq<DiagnosticView>)| e.1.len() > 0);
    assert forall|k: int| 0 <= k < f.len() implies (#[trigger] f[k]).1.len() > 0 by {
        d.lemma_filter_pred(|e: (Seq<char>, Seq<DiagnosticView>)| e.1.len() > 0, k);
    }
}

/// Publishing a non-empty list and reading the same document gives the list
/// back; other documents read as before.
pub proof fn lemma_publish_then_get(
    d: Seq<(Seq<char>, Seq<DiagnosticView>)>,
    uri: Seq<char>,
    list: Seq<DiagnosticView>,
    other: Seq<char>,
)
    requires
        distinct_keys(d),
    ensures
        diagnostics_of(publish_spec(d, uri, list), uri) == list,
        other != uri ==> diagnostics_of(publish_spec(d, uri, list), other) == diagnostics_of(
            d,
            other,
        ),
{
    if list.len() == 0 {
        crate::store::lemma_lookup_remove(d, uri, other);
    } else {
        crate::store::lemma_lookup_insert(d, uri, list, other);
    }
}

/// After an owner's diagnostics are cleared, no document has one from it.
pub proof fn lemma_clear_diagnostics_removes(
    d: Seq<(Seq<char>, Seq<DiagnosticView>)>,
    owner: Seq<char>,
    uri: Seq<char>,
    diag: DiagnosticView,
)
    ensures
        diagnostics_of(clear_diagnostics_spec(d, owner), uri).contains(diag) ==> diag.source != Some(
            owner,
        ),
{
    broadcast use vstd::seq_lib::group_filter_ensures;

    let c = clear_diagnostics_spec(d, owner);
    let mapped = d.map_values(
        |e: (Seq<char>, Seq<DiagnosticView>)| (e.0, e.1.filter(not_from(owner))),
    );
    crate::store::lemma_key_index_bounds(c, uri);
    if diagnostics_of(c, uri).contains(diag) {
        let i = crate::store::key_index(c, uri);
        assert(mapped.filter(|e: (Seq<char>, Seq<DiagnosticView>)| e.1.len() > 0).contains(c[i]));
        mapped.lemma_filter_contains_rev(|e: (Seq<char>, Seq<DiagnosticView>)| e.1.len() > 0, c[i]);
        let m = choose|m: int| 0 <= m < mapped.len() && mapped[m] == c[i];
        let k = choose|k: int| 0 <= k < c[i].1.len() && c[i].1[k] == diag;
        assert(c[i].1 == d[m].1.filter(not_from(owner)));
        d[m].1.lemma_filter_pred(not_from(owner), k);
    }
}

/// Clearing an owner leaves no provider of that owner in any list.
pub proof fn lemma_cleared_providers_not_owned<T: OwnedProvider>(s: Seq<T::V>, owner: Seq<char>, v: T::V)
    ensures
        s.filter(not_owned_by::<T>(owner)).contains(v) ==> T::owner_of(v) != owner,
{
    broadcast use vstd::seq_lib::group_filter_ensures;

    if s.filter(not_owned_by::<T>(owner)).contains(v) {
        let k = choose|k: int|
            0 <= k < s.filter(not_owned_by::<T>(owner)).len() && s.filter(
                not_owned_by::<T>(owner),
            )[k] == v;
        s.lemma_filter_pred(not_owned_by::<T>(owner), k);
    }
}

} // verus!
