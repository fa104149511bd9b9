//! Find and replace across files: the pattern a search looks for, which
//! paths it skips, and how the matches found are replaced file by file.
use vstd::prelude::*;
use crate::store::{Duplicate, views, lookup, store_insert, duplicate_all};
use crate::text::{concat, contains, contains_spec, owned, replace_str, str_replace_spec, str_eq, join_with, chars_of, string_of_range, opt_view};
use crate::dap::{utf8_width, utf8_len};
use crate::store::Store;
use crate::order::{ranked_sort, ranked_insertion_point, rank_lt};

verus! {

/// One match of a search: the first in its line.
pub struct SearchResult {
    /// Path relative to the searched root.
    pub path: String,
    /// Line number, from 1.
    pub line: usize,
    /// Column of the match, from 1.
    pub column: usize,
    /// The line's text.
    pub text: String,
    /// The text that matched.
    pub match_text: String,
}

/// Mathematical form of a [`SearchResult`].
pub struct SearchResultView {
    pub path: Seq<char>,
    pub line: usize,
    pub column: usize,
    pub text: Seq<char>,
    pub match_text: Seq<char>,
}

impl View for SearchResult {
    type V = SearchResultView;

    open spec fn view(&self) -> SearchResultView {
        SearchResultView {
            path: self.path@,
            line: self.line,
            column: self.column,
            text: self.text@,
            match_text: self.match_text@,
        }
    }
}

impl Duplicate for SearchResult {
    fn duplicate(&self) -> (r: Self) {
        SearchResult {
            path: self.path.clone(),
            line: self.line,
            column: self.column,
            text: self.text.clone(),
            match_text: self.match_text.clone(),
        }
    }
}

/// What to search for and where.
pub struct SearchOptions {
    pub query: String,
    pub case_sensitive: bool,
    pub use_regex: bool,
    pub whole_word: bool,
    pub include_pattern: Option<String>,
    pub exclude_pattern: Option<String>,
    pub max_results: Option<usize>,
}

/// The characters a regular expression gives a meaning to.
pub open spec fn is_meta_character(c: char) -> bool {
    c == '\\' || c == '.' || c == '+' || c == '*' || c == '?' || c == '(' || c == ')' || c == '|' || c == '['
        || c == ']' || c == '{' || c == '}' || c == '^' || c == '$' || c == '#' || c == '&' || c == '-'
        || c == '~'
}

/// `s` with a backslash before each meta character: a pattern matching `s` literally.
pub open spec fn escape_spec(s: Seq<char>) -> Seq<char>
    decreases s.len(),
{
    if s.len() == 0 {
        Seq::empty()
    } else {
        let rest = escape_spec(s.drop_last());
        if is_meta_character(s.last()) {
            rest.push('\\').push(s.last())
        } else {
            rest.push(s.last())
        }
    }
}

/// `regex::escape`: the pattern that matches `s` literally, each regex meta
/// character preceded by a backslash (the crate's source escapes exactly
/// the characters of [`is_meta_character`], in order).
#[verifier::external_body]
fn regex_escape(s: &str) -> (r: String)
    ensures
        r@ == escape_spec(s@),
{
    regex::escape(s)
}

/// The regular expression a search runs: the query escaped and bounded by
/// word boundaries for a whole-word search, escaped for a plain search, and
/// as written for a regex search.
pub open spec fn search_pattern_spec(query: Seq<char>, use_regex: bool, whole_word: bool) -> Seq<char> {
    if whole_word {
        "\\b"@ + escape_spec(query) + "\\b"@
    } else if !use_regex {
        escape_spec(query)
    } else {
        query
    }
}

/// The regular expression a search with `options` runs.
pub fn search_pattern(options: &SearchOptions) -> (r: String)
    ensures
        r@ == search_pattern_spec(options.query@, options.use_regex, options.whole_word),
{
    if options.whole_word {
        let escaped = regex_escape(options.query.as_str());
        let front = concat("\\b", escaped.as_str());
        concat(front.as_str(), "\\b")
    } else if !options.use_regex {
        regex_escape(options.query.as_str())
    } else {
        options.query.clone()
    }
}

/// Whether a file's path is left out of a search: when an exclude pattern is
/// given, is not empty, and occurs in the path.
pub open spec fn excluded_spec(path: Seq<char>, exclude: Option<Seq<char>>) -> bool {
    match exclude {
        Some(e) => e.len() > 0 && contains_spec(path, e),
        None => false,
    }
}

/// Whether a search with exclude pattern `exclude` leaves out `path`.
pub fn is_excluded(path: &str, exclude: &Option<String>) -> (r: bool)
    ensures
        r == excluded_spec(path@, crate::text::opt_view(*exclude)),
{
    match exclude {
        Some(e) => {
            if str_eq(e.as_str(), "") {
                proof {
                    reveal_strlit("");
                }
                false
            } else {
                proof {
                    reveal_strlit("");
                    if e@.len() == 0 {
                        assert(e@ =~= ""@);
                    }
                }
                contains(path, e.as_str())
            }
        },
        None => false,
    }
}

/// The default number of results a search stops at.
pub fn max_results_or_default(max_results: Option<usize>) -> (r: usize)
    ensures
        r == match max_results {
            Some(m) => m,
            None => 1000,
        },
{
    match max_results {
        Some(m) => m,
        None => 1000,
    }
}

/// A search's results grouped by file, files in order of their first
/// match, each file's matches in order.
pub open spec fn group_by_file(results: Seq<SearchResultView>) -> Seq<(Seq<char>, Seq<SearchResultView>)>
    decreases results.len(),
{
    if results.len() == 0 {
        Seq::empty()
    } else {
        let g = group_by_file(results.drop_last());
        let r = results.last();
        store_insert(
            g,
            r.path,
            match lookup(g, r.path) {
                Some(l) => l.push(r),
                None => seq![r],
            },
        )
    }
}

/// The order matches are replaced in: later lines first, and within a line
/// later columns first.
pub open spec fn replace_before(a: SearchResultView, b: SearchResultView) -> bool {
    a.line > b.line || (a.line == b.line && a.column > b.column)
}

/// `content` after replacing, for each match in turn, every occurrence of
/// its matched text by `replacement`.
pub open spec fn replace_each(content: Seq<char>, matches: Seq<SearchResultView>, replacement: Seq<char>) -> Seq<char>
    decreases matches.len(),
{
    if matches.len() == 0 {
        content
    } else {
        str_replace_spec(replace_each(content, matches.drop_last(), replacement), matches.last().match_text, replacement)
    }
}

/// The secret store's account name for an extension's key: `extension:key`.
pub fn secret_username(extension_id: &str, key: &str) -> (r: String)
    ensures
        r@ == extension_id@.push(':') + key@,
{
    join_with(extension_id, ':', key)
}

/// A secret read from the store, if there is one.
pub struct SecretResult {
    pub value: Option<String>,
}

/// Matches are replaced later lines first, and within a line later columns
/// first; matches at the same place keep their order.
pub open spec fn replace_key() -> spec_fn(SearchResultView) -> (int, Seq<char>) {
    |m: SearchResultView| (-(m.line as int * 0x1_0000_0000_0000_0000 + m.column as int), Seq::<char>::empty())
}

/// A file's content after its matches are replaced, in replacement order.
pub open spec fn file_after_replace(content: Seq<char>, matches: Seq<SearchResultView>, replacement: Seq<char>) -> Seq<char> {
    replace_each(content, ranked_sort(matches, replace_key()), replacement)
}

/// The matches in replacement order.
fn replacement_order(matches: &Vec<SearchResult>) -> (r: Vec<SearchResult>)
    ensures
        views(r@) == ranked_sort(views(matches@), replace_key()),
{
    let ghost s = views(matches@);
    let ghost key = replace_key();
    let mut out: Vec<SearchResult> = Vec::new();
    let mut i: usize = 0;
    assert(views(out@) =~= ranked_sort(s.take(0), key));
    while i < matches.len()
        invariant
            i <= matches@.len(),
            s == views(matches@),
            key == replace_key(),
            views(out@) == ranked_sort(s.take(i as int), key),
        decreases matches@.len() - i,
    {
        let c = matches[i].duplicate();
        let ghost cv = c@;
        let ghost before = views(out@);
        assert(s.take(i + 1).drop_last() =~= s.take(i as int));
        assert(s.take(i + 1).last() == cv);
        let mut j: usize = out.len();
        assert(before.take(j as int) =~= before);
        while j > 0 && (c.line > out[j - 1].line || (c.line == out[j - 1].line && c.column > out[j - 1].column))
            invariant
                j <= out@.len(),
                before == views(out@),
                cv == c@,
                key == replace_key(),
                ranked_insertion_point(before, cv, key) == ranked_insertion_point(before.take(j as int), cv, key),
            decreases j,
        {
            assert(before.take(j as int).drop_last() =~= before.take(j - 1));
            assert(before.take(j as int).last() == before[j - 1]);
            assert(rank_lt(key(cv), key(before[j - 1])));
            j = j - 1;
        }
        proof {
            if j > 0 {
                assert(before.take(j as int).last() == before[j - 1]);
                assert(!rank_lt(key(cv), key(before[j - 1])));
            }
        }
        out.insert(j, c);
        assert(views(out@) =~= before.insert(j as int, cv));
        i = i + 1;
    }
    assert(s.take(matches@.len() as int) =~= s);
    out
}

/// A file's content after its matches are replaced by `replace_text`: in
/// replacement order, every occurrence of each match's text.
pub fn apply_replacements(content: &str, matches: &Vec<SearchResult>, replace_text: &str) -> (r: String)
    ensures
        r@ == file_after_replace(content@, views(matches@), replace_text@),
{
    let ordered = replacement_order(matches);
    let ghost o = views(ordered@);
    let mut out = owned(content);
    let mut i: usize = 0;
    assert(o.take(0) =~= Seq::<SearchResultView>::empty());
    while i < ordered.len()
        invariant
            i <= ordered@.len(),
            o == views(ordered@),
            out@ == replace_each(content@, o.take(i as int), replace_text@),
        decreases ordered@.len() - i,
    {
        assert(o.take(i + 1).drop_last() =~= o.take(i as int));
        assert(o.take(i + 1).last() == ordered@[i as int]@);
        out = replace_str(out.as_str(), ordered[i].match_text.as_str(), replace_text);
        i = i + 1;
    }
    assert(o.take(ordered@.len() as int) =~= o);
    out
}

/// A file's matches.
pub struct ResultList {
    pub items: Vec<SearchResult>,
}

impl View for ResultList {
    type V = Seq<SearchResultView>;

    open spec fn view(&self) -> Seq<SearchResultView> {
        views(self.items@)
    }
}

impl Duplicate for ResultList {
    fn duplicate(&self) -> (r: Self) {
        let items = duplicate_all(&self.items);
        assert(views(items@) =~= views(self.items@));
        ResultList { items }
    }
}

/// A search's results grouped by file: files in order of their first match,
/// each with its matches in order.
pub fn group_results_by_file(results: Vec<SearchResult>) -> (r: Vec<(String, Vec<SearchResult>)>)
    ensures
        r@.map_values(|e: (String, Vec<SearchResult>)| (e.0@, views(e.1@))) == group_by_file(views(results@)),
{
    let ghost s = views(results@);
    let mut groups: Store<ResultList> = Store::new();
    let mut i: usize = 0;
    assert(s.take(0) =~= Seq::<SearchResultView>::empty());
    while i < results.len()
        invariant
            i <= results@.len(),
            s == views(results@),
            groups.wf(),
            groups.entries() == group_by_file(s.take(i as int)),
        decreases results@.len() - i,
    {
        assert(s.take(i + 1).drop_last() =~= s.take(i as int));
        assert(s.take(i + 1).last() == results@[i as int]@);
        let r = results[i].duplicate();
        let mut list = match groups.get(r.path.as_str()) {
            Some(l) => l,
            None => {
                let l = ResultList { items: Vec::new() };
                assert(l@ =~= Seq::<SearchResultView>::empty());
                l
            },
        };
        let ghost lv = list@;
        let ghost rv = r@;
        let key = r.path.clone();
        list.items.push(r);
        assert(list@ =~= lv.push(rv));
        assert(lv.push(rv) == match lookup(group_by_file(s.take(i as int)), rv.path) {
            Some(l) => l.push(rv),
            None => seq![rv],
        }) by {
            if lookup(group_by_file(s.take(i as int)), rv.path) is None {
                assert(lv.push(rv) =~= seq![rv]);
            }
        }
        groups.insert(key, list);
        i = i + 1;
    }
    assert(s.take(results@.len() as int) =~= s);
    let n = groups.len();
    let mut out: Vec<(String, Vec<SearchResult>)> = Vec::new();
    let mut k: usize = 0;
    while k < n
        invariant
            n == groups.entries().len(),
            k <= n,
            out@.map_values(|e: (String, Vec<SearchResult>)| (e.0@, views(e.1@))) == groups.entries().take(k as int),
        decreases n - k,
    {
        let (path, list) = groups.entry_at(k);
        let ghost ov = out@.map_values(|e: (String, Vec<SearchResult>)| (e.0@, views(e.1@)));
        let copy = duplicate_all(&list.items);
        assert(views(copy@) =~= list@);
        out.push((path.clone(), copy));
        assert(out@.map_values(|e: (String, Vec<SearchResult>)| (e.0@, views(e.1@))) =~= ov.push(groups.entries()[k as int]));
        assert(groups.entries().take(k + 1) =~= groups.entries().take(k as int).push(groups.entries()[k as int]));
        k = k + 1;
    }
    assert(groups.entries().take(n as int) =~= groups.entries());
    out
}

/// Replacements run later lines first, and later columns first within a line.
pub proof fn lemma_replacement_order(matches: Seq<SearchResultView>)
    ensures
        forall|i: int, j: int|
            0 <= i < j < ranked_sort(matches, replace_key()).len() ==> !replace_before(
                #[trigger] ranked_sort(matches, replace_key())[j],
                #[trigger] ranked_sort(matches, replace_key())[i],
            ),
{
    crate::order::lemma_ranked_sort_sorted(matches, replace_key());
    let r = ranked_sort(matches, replace_key());
    assert forall|i: int, j: int| 0 <= i < j < r.len() implies !replace_before(#[trigger] r[j], #[trigger] r[i]) by {
        assert(!rank_lt(replace_key()(r[j]), replace_key()(r[i])));
    }
}

/// The message of the error building a grep matcher from `pattern` gives, or
/// none where the pattern builds.
pub uninterp spec fn matcher_build_error(pattern: Seq<char>, case_insensitive: bool) -> Option<Seq<char>>;

/// The start and end byte offsets of the first match that a grep matcher
/// built from `pattern` finds in `line`; none where nothing matches or the
/// pattern does not build.
pub uninterp spec fn first_match_result(pattern: Seq<char>, case_insensitive: bool, line: Seq<char>) -> Option<(nat, nat)>;

/// `grep_regex::RegexMatcherBuilder::build` with the given case folding: the
/// text of its error, where `pattern` does not build.
#[verifier::external_body]
fn matcher_error(pattern: &str, case_insensitive: bool) -> (r: Option<String>)
    ensures
        opt_view(r) == matcher_build_error(pattern@, case_insensitive),
{
    grep_regex::RegexMatcherBuilder::new().case_insensitive(case_insensitive).build(pattern).err().map(|e| e.to_string())
}

/// `grep_matcher::Matcher::find` on the matcher that
/// `grep_regex::RegexMatcherBuilder::build` makes of `pattern`: the byte
/// range of the first match in `line`.
#[verifier::external_body]
fn first_match(pattern: &str, case_insensitive: bool, line: &str) -> (r: Option<(usize, usize)>)
    ensures
        match r {
            Some(m) => first_match_result(pattern@, case_insensitive, line@) == Some((m.0 as nat, m.1 as nat)),
            None => first_match_result(pattern@, case_insensitive, line@) is None,
        },
{
    match grep_regex::RegexMatcherBuilder::new().case_insensitive(case_insensitive).build(pattern) {
        Ok(m) => match grep_matcher::Matcher::find(&m, line.as_bytes()) {
            Ok(found) => found.map(|x| (x.start(), x.end())),
            Err(_) => None,
        },
        Err(_) => None,
    }
}

/// `s` without the newlines at its end.
pub open spec fn trim_newlines(s: Seq<char>) -> Seq<char>
    decreases s.len(),
{
    if s.len() > 0 && s.last() == '\n' {
        trim_newlines(s.drop_last())
    } else {
        s
    }
}

/// `k` chars of `s` take exactly `b` bytes.
pub open spec fn ends_at_byte(s: Seq<char>, b: nat, k: int) -> bool {
    0 <= k <= s.len() && utf8_len(s.take(k)) == b
}

/// The number of chars of `s` that end exactly at byte `b`; none where `b`
/// falls inside a char or past the end.
pub open spec fn char_index(s: Seq<char>, b: nat) -> Option<int> {
    if exists|k: int| ends_at_byte(s, b, k) {
        Some(choose|k: int| ends_at_byte(s, b, k))
    } else {
        None
    }
}

/// The chars a match's byte range covers in `t`, where both ends fall between
/// chars.
pub open spec fn match_chars(t: Seq<char>, m: (nat, nat)) -> Option<(int, int)> {
    match (char_index(t, m.0), char_index(t, m.1)) {
        (Some(a), Some(b)) => if a <= b {
            Some((a, b))
        } else {
            None
        },
        _ => None,
    }
}

/// The result a line gives for its first match `m`: the path, the line
/// number, the column (the match's start byte, from 1), the line and the
/// matched text; none where the match does not fall between chars (there
/// the line's text cannot be cut).
pub open spec fn line_hit(path: Seq<char>, line_number: u64, t: Seq<char>, m: (nat, nat)) -> Option<SearchResultView> {
    if m.0 < usize::MAX {
        match match_chars(t, m) {
            Some(ab) => Some(
                SearchResultView {
                    path,
                    line: line_number as usize,
                    column: (m.0 + 1) as usize,
                    text: t,
                    match_text: t.subrange(ab.0, ab.1),
                },
            ),
            None => None,
        }
    } else {
        None
    }
}

/// What a search reports when a match cuts a char in two.
pub open spec fn boundary_error_message() -> Seq<char> {
    "Match does not fall on character boundaries"@
}

proof fn lemma_utf8_take_strict(s: Seq<char>, j: int, k: int)
    requires
        0 <= j < k <= s.len(),
    ensures
        utf8_len(s.take(j)) < utf8_len(s.take(k)),
    decreases k - j,
{
    assert(s.take(k).drop_last() =~= s.take(k - 1));
    if j < k - 1 {
        lemma_utf8_take_strict(s, j, k - 1);
    }
}

/// The number of chars of `cs` left once the newlines at its end are cut.
fn trimmed_len(cs: &Vec<char>) -> (n: usize)
    ensures
        n <= cs@.len(),
        trim_newlines(cs@) == cs@.take(n as int),
{
    let mut n = cs.len();
    assert(cs@.take(n as int) =~= cs@);
    while n > 0 && cs[n - 1] == '\n'
        invariant
            n <= cs@.len(),
            trim_newlines(cs@) == trim_newlines(cs@.take(n as int)),
        decreases n,
    {
        assert(cs@.take(n as int).drop_last() =~= cs@.take(n - 1));
        n = n - 1;
    }
    if n > 0 {
        assert(cs@.take(n as int).last() == cs@[n - 1]);
    }
    n
}

/// How many of the first `n` chars of `cs` end exactly at byte `b`.
fn char_index_at(cs: &Vec<char>, n: usize, b: usize) -> (r: Option<usize>)
    requires
        n <= cs@.len(),
    ensures
        match r {
            Some(k) => char_index(cs@.take(n as int), b as nat) == Some(k as int),
            None => char_index(cs@.take(n as int), b as nat) is None,
        },
{
    let ghost s = cs@.take(n as int);
    let mut i: usize = 0;
    let mut acc: u128 = 0;
    assert(s.take(0) =~= Seq::<char>::empty());
    while i < n && acc < b as u128
        invariant
            i <= n,
            n <= cs@.len(),
            s == cs@.take(n as int),
            acc as int == utf8_len(s.take(i as int)),
            acc <= 4 * i,
            forall|j: int| 0 <= j < i ==> utf8_len(#[trigger] s.take(j)) < b,
        decreases n - i,
    {
        assert(s.take(i + 1).drop_last() =~= s.take(i as int));
        assert(s.take(i + 1).last() == cs@[i as int]);
        let ghost prev = i as int;
        assert(utf8_len(s.take(prev)) < b);
        let c = cs[i] as u32;
        if c < 0x80 {
            acc = acc + 1;
        } else if c < 0x800 {
            acc = acc + 2;
        } else if c < 0x10000 {
            acc = acc + 3;
        } else {
            acc = acc + 4;
        }
        i = i + 1;
    }
    if acc == b as u128 {
        proof {
            assert(ends_at_byte(s, b as nat, i as int));
            let k = choose|k: int| ends_at_byte(s, b as nat, k);
            if k < i {
                lemma_utf8_take_strict(s, k, i as int);
            } else if k > i {
                lemma_utf8_take_strict(s, i as int, k);
            }
        }
        Some(i)
    } else {
        proof {
            assert forall|k: int| !ends_at_byte(s, b as nat, k) by {
                if 0 <= k <= s.len() {
                    if k < i {
                    } else if k > i {
                        lemma_utf8_take_strict(s, i as int, k);
                    }
                }
            }
        }
        None
    }
}

/// Whether the match `m` falls between the chars of the first `n` chars of
/// `cs`, with room for its column.
fn hit_fits(cs: &Vec<char>, n: usize, m: (usize, usize)) -> (r: Option<(usize, usize)>)
    requires
        n <= cs@.len(),
    ensures
        match r {
            Some(ab) => m.0 < usize::MAX && match_chars(cs@.take(n as int), (m.0 as nat, m.1 as nat)) == Some(
                (ab.0 as int, ab.1 as int),
            ),
            None => !(m.0 < usize::MAX && match_chars(cs@.take(n as int), (m.0 as nat, m.1 as nat)) is Some),
        },
{
    if m.0 == usize::MAX {
        return None;
    }
    match (char_index_at(cs, n, m.0), char_index_at(cs, n, m.1)) {
        (Some(a), Some(b)) => if a <= b {
            Some((a, b))
        } else {
            None
        },
        _ => None,
    }
}

/// The result that `line`, numbered `line_number` in the file at `path`,
/// gives for the first match `found` in its text without final newlines;
/// none where nothing matched.
pub fn line_result(path: &str, line_number: u64, line: &str, found: Option<(usize, usize)>) -> (r: Option<SearchResult>)
    requires
        found matches Some(m) ==> line_hit(path@, line_number, trim_newlines(line@), (m.0 as nat, m.1 as nat)) is Some,
    ensures
        match found {
            None => r is None,
            Some(m) => r matches Some(h) && line_hit(path@, line_number, trim_newlines(line@), (m.0 as nat, m.1 as nat))
                == Some(h@),
        },
{
    match found {
        None => None,
        Some(m) => {
            let cs = chars_of(line);
            let n = trimmed_len(&cs);
            match hit_fits(&cs, n, m) {
                Some(ab) => {
                    let (a, b) = ab;
                    let text = string_of_range(&cs, 0, n);
                    let match_text = string_of_range(&cs, a, b);
                    assert(cs@.subrange(0, n as int) =~= cs@.take(n as int));
                    assert(cs@.subrange(a as int, b as int) =~= cs@.take(n as int).subrange(a as int, b as int));
                    Some(
                        SearchResult {
                            path: owned(path),
                            line: line_number as usize,
                            column: m.0 + 1,
                            text,
                            match_text,
                        },
                    )
                },
                None => None,
            }
        },
    }
}

/// A search ready to run on lines: the pattern and whether case is ignored.
pub struct LineSearch {
    pub pattern: String,
    pub case_insensitive: bool,
}

/// The search that `options` ask for, or why its pattern does not build.
pub fn prepare_search(options: &SearchOptions) -> (r: Result<LineSearch, String>)
    ensures
        match matcher_build_error(
            search_pattern_spec(options.query@, options.use_regex, options.whole_word),
            !options.case_sensitive,
        ) {
            Some(e) => r matches Err(m) && m@ == "Invalid regex: "@ + e,
            None => r matches Ok(s) && s.pattern@ == search_pattern_spec(
                options.query@,
                options.use_regex,
                options.whole_word,
            ) && s.case_insensitive == !options.case_sensitive,
        },
{
    let pattern = search_pattern(options);
    let case_insensitive = !options.case_sensitive;
    match matcher_error(pattern.as_str(), case_insensitive) {
        Some(e) => Err(concat("Invalid regex: ", e.as_str())),
        None => Ok(LineSearch { pattern, case_insensitive }),
    }
}

/// Takes one line that the searcher reports in a file: once `max_matches`
/// results are held it asks to stop; otherwise it adds the result of the
/// line's first match, if any, and asks to go on. A match that cuts a char
/// in two is an error.
pub fn take_line(
    results: &mut Vec<SearchResult>,
    max_matches: usize,
    search: &LineSearch,
    path: &str,
    line_number: u64,
    line: &str,
) -> (r: Result<bool, String>)
    ensures
        old(results)@.len() >= max_matches ==> r == Ok::<bool, String>(false) && final(results)@ == old(results)@,
        old(results)@.len() < max_matches ==> match first_match_result(
            search.pattern@,
            search.case_insensitive,
            trim_newlines(line@),
        ) {
            None => r == Ok::<bool, String>(true) && final(results)@ == old(results)@,
            Some(m) => match line_hit(path@, line_number, trim_newlines(line@), m) {
                Some(h) => r == Ok::<bool, String>(true) && views(final(results)@) == views(old(results)@).push(h),
                None => final(results)@ == old(results)@ && (r matches Err(e) && e@ == boundary_error_message()),
            },
        },
{
    if results.len() >= max_matches {
        return Ok(false);
    }
    let cs = chars_of(line);
    let n = trimmed_len(&cs);
    let t = string_of_range(&cs, 0, n);
    assert(cs@.subrange(0, n as int) =~= cs@.take(n as int));
    match first_match(search.pattern.as_str(), search.case_insensitive, t.as_str()) {
        None => Ok(true),
        Some(m) => {
            match hit_fits(&cs, n, m) {
                Some(_) => {
                    match line_result(path, line_number, line, Some(m)) {
                        Some(h) => {
                            let ghost before = results@;
                            results.push(h);
                            assert(views(results@) =~= views(before).push(h@));
                            Ok(true)
                        },
                        None => Ok(true),
                    }
                },
                None => Err(owned("Match does not fall on character boundaries")),
            }
        },
    }
}

/// How many more results a file may add once `found` are held: none left
/// once the search's cap is reached.
pub fn file_quota(max_results: usize, found: usize) -> (r: Option<usize>)
    ensures
        found >= max_results ==> r is None,
        found < max_results ==> r == Some((max_results - found) as usize),
{
    if found >= max_results {
        None
    } else {
        Some(max_results - found)
    }
}

} // verus!
