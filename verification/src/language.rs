//! Document selectors: which documents a language feature applies to.
use vstd::prelude::*;
use crate::store::Duplicate;
use crate::text::{chars_of, clone_opt, starts_with, ends_with, str_eq, starts_with_spec, ends_with_spec};

verus! {

/// One condition on a document: its language, its URI scheme, a URI pattern.
pub struct DocumentFilter {
    pub language: Option<String>,
    pub scheme: Option<String>,
    pub pattern: Option<String>,
}

/// A document matches when some filter accepts it.
pub struct DocumentSelector {
    pub filters: Vec<DocumentFilter>,
}

impl View for DocumentFilter {
    type V = DocumentFilter;

    open spec fn view(&self) -> DocumentFilter {
        *self
    }
}

impl Duplicate for DocumentFilter {
    fn duplicate(&self) -> (r: Self) {
        DocumentFilter {
            language: clone_opt(&self.language),
            scheme: clone_opt(&self.scheme),
            pattern: clone_opt(&self.pattern),
        }
    }
}

impl View for DocumentSelector {
    type V = Seq<DocumentFilter>;

    open spec fn view(&self) -> Seq<DocumentFilter> {
        self.filters@
    }
}

impl Duplicate for DocumentSelector {
    fn duplicate(&self) -> (r: Self) {
        let mut filters: Vec<DocumentFilter> = Vec::new();
        let mut i: usize = 0;
        while i < self.filters.len()
            invariant
                i <= self.filters@.len(),
                filters@ == self.filters@.take(i as int),
            decreases self.filters@.len() - i,
        {
            filters.push(self.filters[i].duplicate());
            assert(self.filters@.take(i as int).push(self.filters@[i as int]) =~= self.filters@.take(
                i + 1,
            ));
            i = i + 1;
        }
        assert(self.filters@.take(self.filters@.len() as int) =~= self.filters@);
        DocumentSelector { filters }
    }
}

/// `p` holds exactly one `*`, at position `i`.
pub open spec fn single_star_at(p: Seq<char>, i: int) -> bool {
    0 <= i < p.len() && p[i] == '*' && forall|j: int| 0 <= j < p.len() && j != i ==> p[j] != '*'
}

/// Glob matching where `*` alone matches anything, a single `*` splits the
/// pattern into a prefix and a suffix the text must have, and any other
/// pattern must equal the text.
pub open spec fn glob_match_spec(text: Seq<char>, pattern: Seq<char>) -> bool {
    if pattern == seq!['*'] {
        true
    } else if exists|i: int| single_star_at(pattern, i) {
        let i = choose|i: int| single_star_at(pattern, i);
        starts_with_spec(text, pattern.subrange(0, i)) && ends_with_spec(
            text,
            pattern.subrange(i + 1, pattern.len() as int),
        )
    } else {
        text == pattern
    }
}

/// Matches `text` against a pattern with at most one `*` wildcard.
pub fn simple_glob_match(text: &str, pattern: &str) -> (r: bool)
    ensures
        r == glob_match_spec(text@, pattern@),
{
    let p = chars_of(pattern);
    if p.len() == 1 && p[0] == '*' {
        assert(pattern@ =~= seq!['*']);
        return true;
    }
    assert(pattern@ != seq!['*']) by {
        if pattern@ == seq!['*'] {
            assert(p@.len() == 1 && p@[0] == '*');
        }
    }
    let mut count: usize = 0;
    let mut at: usize = 0;
    let mut i: usize = 0;
    while i < p.len()
        invariant
            p@ == pattern@,
            i <= p@.len(),
            count <= i,
            count == 0 ==> forall|j: int| 0 <= j < i ==> p@[j] != '*',
            count >= 1 ==> at < i && p@[at as int] == '*',
            count == 1 ==> forall|j: int| 0 <= j < i && j != at ==> p@[j] != '*',
            count >= 2 ==> exists|j: int| 0 <= j < i && j != at && p@[j] == '*',
        decreases p@.len() - i,
    {
        if p[i] == '*' {
            if count == 0 {
                at = i;
            }
            count = count + 1;
        }
        i = i + 1;
    }
    if count == 1 {
        assert(single_star_at(pattern@, at as int));
        assert forall|k: int| single_star_at(pattern@, k) implies k == at by {}
        let prefix = crate::text::string_of_range(&p, 0, at);
        let suffix = crate::text::string_of_range(&p, at + 1, p.len());
        assert(prefix@ =~= pattern@.subrange(0, at as int));
        assert(suffix@ =~= pattern@.subrange(at + 1, pattern@.len() as int));
        return starts_with(text, prefix.as_str()) && ends_with(text, suffix.as_str());
    }
    assert(!exists|k: int| single_star_at(pattern@, k)) by {
        if count == 0 {
        } else {
            let j = choose|j: int| 0 <= j < pattern@.len() && j != at && p@[j] == '*';
            assert forall|k: int| !single_star_at(pattern@, k) by {
                if single_star_at(pattern@, k) {
                    if k == at {
                        assert(p@[j] != '*');
                    } else {
                        assert(p@[at as int] != '*');
                    }
                }
            }
        }
    }
    str_eq(text, pattern)
}

/// A filter accepts a document when each condition it sets holds.
pub open spec fn filter_accepts(f: DocumentFilter, language: Seq<char>, uri: Seq<char>) -> bool {
    &&& (f.language matches Some(lang) ==> (lang@ == language || lang@ == "*"@))
    &&& (f.scheme matches Some(scheme) ==> starts_with_spec(uri, scheme@.push(':')))
    &&& (f.pattern matches Some(pattern) ==> glob_match_spec(uri, pattern@))
}

/// Whether one filter accepts the document.
pub fn filter_matches(f: &DocumentFilter, language: &str, uri: &str) -> (r: bool)
    ensures
        r == filter_accepts(*f, language@, uri@),
{
    if let Some(lang) = &f.language {
        if !str_eq(lang.as_str(), language) && !str_eq(lang.as_str(), "*") {
            return false;
        }
    }
    if let Some(scheme) = &f.scheme {
        let prefix = crate::text::with_char(scheme.as_str(), ':');
        if !starts_with(uri, prefix.as_str()) {
            return false;
        }
    }
    if let Some(pattern) = &f.pattern {
        if !simple_glob_match(uri, pattern.as_str()) {
            return false;
        }
    }
    true
}

/// Some filter of the list accepts the document.
pub open spec fn selector_accepts(filters: Seq<DocumentFilter>, language: Seq<char>, uri: Seq<char>) -> bool {
    exists|i: int| 0 <= i < filters.len() && filter_accepts(#[trigger] filters[i], language, uri)
}

impl DocumentSelector {
    /// Some filter of the selector accepts the document.
    pub open spec fn accepts(&self, language: Seq<char>, uri: Seq<char>) -> bool {
        selector_accepts(self.filters@, language, uri)
    }

    /// Whether the selector accepts a document of `language` at `uri`.
    pub fn matches(&self, language: &str, uri: &str) -> (r: bool)
        ensures
            r == self.accepts(language@, uri@),
    {
        let mut i: usize = 0;
        while i < self.filters.len()
            invariant
                i <= self.filters@.len(),
                forall|j: int| 0 <= j < i ==> !filter_accepts(#[trigger] self.filters@[j], language@, uri@),
            decreases self.filters@.len() - i,
        {
            if filter_matches(&self.filters[i], language, uri) {
                return true;
            }
            i = i + 1;
        }
        false
    }
}

/// What a filter's language asks: a filter setting only a language accepts a
/// document exactly when that language is the document's or is `*`, which
/// accepts every language; and no filter accepts a document whose language
/// it names otherwise. A selector holding a filter of any language with no
/// other condition accepts every document. A filter setting only a scheme
/// accepts exactly the URIs that start with that scheme and a colon.
pub proof fn lemma_language_filters(f: DocumentFilter, language: Seq<char>, uri: Seq<char>, filters: Seq<DocumentFilter>)
    ensures
        f.scheme is None && f.pattern is None && f.language is None ==> filter_accepts(f, language, uri),
        f.scheme is None && f.pattern is None && (f.language matches Some(l) && l@ == "*"@) ==> filter_accepts(
            f,
            language,
            uri,
        ),
        f.scheme is None && f.pattern is None && (f.language matches Some(l) && l@ == language) ==> filter_accepts(
            f,
            language,
            uri,
        ),
        (f.language matches Some(l) && l@ != language && l@ != "*"@) ==> !filter_accepts(f, language, uri),
        f.language is None && f.pattern is None && (f.scheme matches Some(sc)) ==> (filter_accepts(f, language, uri)
            <==> (uri.len() > f.scheme->0@.len() && uri.subrange(0, f.scheme->0@.len() as int) == f.scheme->0@
            && uri[f.scheme->0@.len() as int] == ':')),
        (exists|i: int|
            0 <= i < filters.len() && (#[trigger] filters[i]).scheme is None && filters[i].pattern is None
                && (filters[i].language matches Some(l) && l@ == "*"@)) ==> selector_accepts(filters, language, uri),
{
    if f.language is None && f.pattern is None && (f.scheme matches Some(sc)) {
        let p = f.scheme->0@.push(':');
        if uri.len() >= p.len() {
            let n = f.scheme->0@.len() as int;
            assert(uri.subrange(0, p.len() as int).drop_last() =~= uri.subrange(0, n));
            assert(p.drop_last() =~= f.scheme->0@);
            assert(uri.subrange(0, p.len() as int)[n] == uri[n]);
            assert(p[n] == ':');
            if uri.len() > f.scheme->0@.len() && uri.subrange(0, f.scheme->0@.len() as int) == f.scheme->0@
                && uri[f.scheme->0@.len() as int] == ':' {
                assert(uri.subrange(0, p.len() as int) =~= p);
            }
        }
    }
    if exists|i: int|
        0 <= i < filters.len() && (#[trigger] filters[i]).scheme is None && filters[i].pattern is None
            && (filters[i].language matches Some(l) && l@ == "*"@) {
        let i = choose|i: int|
            0 <= i < filters.len() && (#[trigger] filters[i]).scheme is None && filters[i].pattern is None
                && (filters[i].language matches Some(l) && l@ == "*"@);
        assert(filter_accepts(filters[i], language, uri));
    }
}

} // verus!
