//! File systems, file watchers and workspace edits: which provider serves a
//! scheme, which watchers hear of a change, and what an edit may do.
use vstd::prelude::*;
use crate::store::{Duplicate, Store, views, lookup, store_insert, store_remove, distinct_keys, values_of};
use crate::text::{chars_of, concat, match_at, occurs_at, starts_with_spec, str_eq, string_of_range};

verus! {

/// A file system serving the URIs of one scheme.
pub struct FileSystemProvider {
    pub id: String,
    pub owner: String,
    pub scheme: String,
    pub is_case_sensitive: bool,
    pub is_readonly: bool,
}

/// A watcher of the files whose path matches a glob pattern.
pub struct FileWatcher {
    pub id: String,
    pub owner: String,
    pub glob_pattern: String,
    pub ignore_create_events: bool,
    pub ignore_change_events: bool,
    pub ignore_delete_events: bool,
}

#[derive(Clone, Copy, Debug, PartialEq, Eq, Structural)]
pub enum FileChangeType {
    Created,
    Changed,
    Deleted,
}

/// A change to the file at `uri`.
pub struct FileChangeEvent {
    pub uri: String,
    pub change_type: FileChangeType,
}

#[derive(Clone, Copy, Debug, PartialEq, Eq, Structural)]
pub enum FileType {
    Unknown,
    File,
    Directory,
    SymbolicLink,
}

/// What is known of a file: its type, times in seconds since the epoch, size
/// and permission bits.
pub struct FileStat {
    pub uri: String,
    pub file_type: FileType,
    pub ctime: u64,
    pub mtime: u64,
    pub size: u64,
    pub permissions: Option<u32>,
}

/// One entry of a directory listing.
pub struct DirectoryEntry {
    pub name: String,
    pub file_type: FileType,
}

/// A batch of file operations.
pub struct WorkspaceEdit {
    pub id: String,
    pub edits: Vec<FileEdit>,
}

/// One file operation of a workspace edit.
pub enum FileEdit {
    CreateFile { uri: String, options: Option<CreateFileOptions> },
    DeleteFile { uri: String, options: Option<DeleteFileOptions> },
    RenameFile { old_uri: String, new_uri: String, options: Option<RenameFileOptions> },
    TextEdit { uri: String, edits: Vec<TextEditItem> },
}

/// A replacement of the text in a range.
pub struct TextEditItem {
    pub range: TextRange,
    pub new_text: String,
}

#[derive(Clone, Copy, Debug, PartialEq, Eq, Structural)]
pub struct TextRange {
    pub start: TextPosition,
    pub end: TextPosition,
}

#[derive(Clone, Copy, Debug, PartialEq, Eq, Structural)]
pub struct TextPosition {
    pub line: u32,
    pub character: u32,
}

#[derive(Clone, Copy, Debug, PartialEq, Eq, Structural)]
pub struct CreateFileOptions {
    pub overwrite: bool,
    pub ignore_if_exists: bool,
}

#[derive(Clone, Copy, Debug, PartialEq, Eq, Structural)]
pub struct DeleteFileOptions {
    pub recursive: bool,
    pub ignore_if_not_exists: bool,
}

#[derive(Clone, Copy, Debug, PartialEq, Eq, Structural)]
pub struct RenameFileOptions {
    pub overwrite: bool,
}

impl View for FileSystemProvider {
    type V = FileSystemProvider;

    open spec fn view(&self) -> FileSystemProvider {
        *self
    }
}

impl Duplicate for FileSystemProvider {
    fn duplicate(&self) -> (r: Self) {
        FileSystemProvider {
            id: self.id.clone(),
            owner: self.owner.clone(),
            scheme: self.scheme.clone(),
            is_case_sensitive: self.is_case_sensitive,
            is_readonly: self.is_readonly,
        }
    }
}

impl View for FileWatcher {
    type V = FileWatcher;

    open spec fn view(&self) -> FileWatcher {
        *self
    }
}

impl Duplicate for FileWatcher {
    fn duplicate(&self) -> (r: Self) {
        FileWatcher {
            id: self.id.clone(),
            owner: self.owner.clone(),
            glob_pattern: self.glob_pattern.clone(),
            ignore_create_events: self.ignore_create_events,
            ignore_change_events: self.ignore_change_events,
            ignore_delete_events: self.ignore_delete_events,
        }
    }
}

/// `s` with every leading copy of `p` removed (std `str::trim_start_matches`).
pub open spec fn trim_start_all(s: Seq<char>, p: Seq<char>) -> Seq<char>
    decreases s.len(),
{
    if p.len() > 0 && starts_with_spec(s, p) {
        trim_start_all(s.skip(p.len() as int), p)
    } else {
        s
    }
}

proof fn lemma_occurs_at_is_prefix(s: Seq<char>, p: Seq<char>, i: int)
    requires
        0 <= i <= s.len(),
    ensures
        occurs_at(s, p, i) == starts_with_spec(s.skip(i), p),
{
    if occurs_at(s, p, i) {
        assert(s.skip(i).subrange(0, p.len() as int) =~= s.subrange(i, i + p.len()));
    }
    if starts_with_spec(s.skip(i), p) {
        assert(s.skip(i).subrange(0, p.len() as int) =~= s.subrange(i, i + p.len()));
    }
}

/// The path a `file://` URI names: the URI without its leading `file://`
/// prefixes. Never fails.
pub fn uri_to_path(uri: &str) -> (r: Result<String, String>)
    ensures
        r matches Ok(path) && path@ == trim_start_all(uri@, "file://"@),
{
    let cs = chars_of(uri);
    let p = chars_of("file://");
    let mut i: usize = 0;
    let n = cs.len();
    assert(cs@.skip(0) =~= cs@);
    while p.len() > 0 && match_at(&cs, &p, i)
        invariant
            cs@ == uri@,
            p@ == "file://"@,
            i <= cs@.len(),
            cs@.len() <= usize::MAX,
            trim_start_all(uri@, p@) == trim_start_all(cs@.skip(i as int), p@),
        decreases cs@.len() - i,
    {
        proof {
            lemma_occurs_at_is_prefix(cs@, p@, i as int);
            assert(cs@.skip(i as int).skip(p@.len() as int) =~= cs@.skip(i + p@.len()));
        }
        i = i + p.len();
    }
    proof {
        lemma_occurs_at_is_prefix(cs@, p@, i as int);
    }
    let path = string_of_range(&cs, i, cs.len());
    assert(path@ =~= cs@.skip(i as int));
    Ok(path)
}

/// The path a `file://` URI names on a platform: as [`uri_to_path`] gives
/// it, and on Windows without the `/` before a drive letter (`/C:/x` names
/// `C:/x`).
pub open spec fn platform_path_spec(uri: Seq<char>, windows: bool) -> Seq<char> {
    let p = trim_start_all(uri, "file://"@);
    if windows && p.len() >= 3 && p[0] == '/' && p[2] == ':' {
        p.skip(1)
    } else {
        p
    }
}

/// The path a `file://` URI names on Windows (`windows`) or elsewhere.
/// Never fails.
pub fn uri_to_path_on(uri: &str, windows: bool) -> (r: Result<String, String>)
    ensures
        r matches Ok(path) && path@ == platform_path_spec(uri@, windows),
{
    let path = match uri_to_path(uri) {
        Ok(p) => p,
        Err(e) => return Err(e),
    };
    if windows {
        let cs = chars_of(path.as_str());
        if cs.len() >= 3 && cs[0] == '/' && cs[2] == ':' {
            let rest = string_of_range(&cs, 1, cs.len());
            assert(rest@ =~= path@.skip(1));
            return Ok(rest);
        }
    }
    Ok(path)
}

/// What `glob::Pattern::new(pattern)` followed by `matches(path)` gives:
/// `None` when the pattern does not compile, else whether the path matches.
pub uninterp spec fn glob_match_result(pattern: Seq<char>, path: Seq<char>) -> Option<bool>;

/// Compiles `pattern` with `glob::Pattern::new` and, when it compiles, tests
/// `path` with `Pattern::matches`. The contract claims only that the outcome
/// is a function of the two strings.
#[verifier::external_body]
fn glob_match(pattern: &str, path: &str) -> (r: Option<bool>)
    ensures
        r == glob_match_result(pattern@, path@),
{
    match glob::Pattern::new(pattern) {
        Ok(compiled) => Some(compiled.matches(path)),
        Err(_) => None,
    }
}

/// Whether a watcher's pattern covers the file at `uri`: `**/*` and `*` cover
/// everything, other patterns are glob-matched against the path, and a
/// pattern that does not compile covers nothing.
pub open spec fn pattern_covers(pattern: Seq<char>, uri: Seq<char>) -> bool {
    if pattern == "**/*"@ || pattern == "*"@ {
        true
    } else {
        glob_match_result(pattern, trim_start_all(uri, "file://"@)) == Some(true)
    }
}

/// Whether the URI matches the glob pattern.
pub fn matches_glob_pattern(uri: &str, pattern: &str) -> (r: bool)
    ensures
        r == pattern_covers(pattern@, uri@),
{
    if str_eq(pattern, "**/*") || str_eq(pattern, "*") {
        return true;
    }
    let path = match uri_to_path(uri) {
        Ok(p) => p,
        Err(e) => e,
    };
    match glob_match(pattern, path.as_str()) {
        Some(m) => m,
        None => false,
    }
}

/// Whether a watcher ignores changes of this kind.
pub open spec fn ignores(w: FileWatcher, kind: FileChangeType) -> bool {
    match kind {
        FileChangeType::Created => w.ignore_create_events,
        FileChangeType::Changed => w.ignore_change_events,
        FileChangeType::Deleted => w.ignore_delete_events,
    }
}

/// Whether a watcher hears of a change to `uri`.
pub open spec fn hears(w: FileWatcher, uri: Seq<char>, kind: FileChangeType) -> bool {
    !ignores(w, kind) && pattern_covers(w.glob_pattern@, uri)
}

/// The ids of the watchers that hear of a change, in watcher order.
pub open spec fn listeners(
    watchers: Seq<FileWatcher>,
    uri: Seq<char>,
    kind: FileChangeType,
) -> Seq<Seq<char>>
    decreases watchers.len(),
{
    if watchers.len() == 0 {
        Seq::empty()
    } else {
        let rest = listeners(watchers.drop_last(), uri, kind);
        if hears(watchers.last(), uri, kind) {
            rest.push(watchers.last().id@)
        } else {
            rest
        }
    }
}

pub open spec fn scheme_taken_message(scheme: Seq<char>) -> Seq<char> {
    "File system provider for scheme '"@ + scheme + "' already registered"@
}

pub open spec fn scheme_missing_message(scheme: Seq<char>) -> Seq<char> {
    "No file system provider found for scheme '"@ + scheme + "'"@
}

pub open spec fn watcher_missing_message(id: Seq<char>) -> Seq<char> {
    "File watcher not found: "@ + id
}

/// Every provider is stored under its scheme.
pub open spec fn providers_by_scheme(p: Seq<(Seq<char>, FileSystemProvider)>) -> bool {
    forall|i: int| 0 <= i < p.len() ==> (#[trigger] p[i]).0 == p[i].1.scheme@
}

/// Every watcher is stored under its id.
pub open spec fn watchers_by_id(w: Seq<(Seq<char>, FileWatcher)>) -> bool {
    forall|i: int| 0 <= i < w.len() ==> (#[trigger] w[i]).0 == w[i].1.id@
}

/// File system providers, at most one per scheme, and file watchers by id.
pub struct FileSystemRegistry {
    providers: Store<FileSystemProvider>,
    watchers: Store<FileWatcher>,
}

impl FileSystemRegistry {
    /// The providers under their schemes, in registration order.
    pub closed spec fn providers(&self) -> Seq<(Seq<char>, FileSystemProvider)> {
        self.providers.entries()
    }

    /// The watchers under their ids, in creation order.
    pub closed spec fn watchers(&self) -> Seq<(Seq<char>, FileWatcher)> {
        self.watchers.entries()
    }

    pub open spec fn wf(&self) -> bool {
        &&& distinct_keys(self.providers())
        &&& providers_by_scheme(self.providers())
        &&& distinct_keys(self.watchers())
        &&& watchers_by_id(self.watchers())
    }

    pub fn new() -> (r: Self)
        ensures
            r.wf(),
            r.providers().len() == 0,
            r.watchers().len() == 0,
    {
        FileSystemRegistry { providers: Store::new(), watchers: Store::new() }
    }

    /// Adds a provider for its scheme; refused when the scheme has one.
    pub fn register_file_system_provider(&mut self, provider: FileSystemProvider) -> (r: Result<
        String,
        String,
    >)
        requires
            old(self).wf(),
        ensures
            final(self).wf(),
            final(self).watchers() == old(self).watchers(),
            lookup(old(self).providers(), provider.scheme@) is Some ==> {
                &&& r matches Err(m) && m@ == scheme_taken_message(provider.scheme@)
                &&& final(self).providers() == old(self).providers()
            },
            lookup(old(self).providers(), provider.scheme@) is None ==> {
                &&& r matches Ok(id) && id@ == provider.id@
                &&& final(self).providers() == old(self).providers().push(
                    (provider.scheme@, provider),
                )
            },
    {
        let ghost before = self.providers();
        let ghost pv = provider;
        if self.providers.contains_key(provider.scheme.as_str()) {
            let a = concat("File system provider for scheme '", provider.scheme.as_str());
            return Err(concat(a.as_str(), "' already registered"));
        }
        let id = provider.id.clone();
        let key = provider.scheme.clone();
        self.providers.insert(key, provider);
        proof {
            crate::store::lemma_key_index_bounds(before, pv.scheme@);
            let after = self.providers();
            assert(after =~= before.push((pv.scheme@, pv)));
            assert forall|i: int| 0 <= i < after.len() implies (#[trigger] after[i]).0
                == after[i].1.scheme@ by {
                if i < before.len() {
                    assert(after[i] == before[i]);
                }
            }
        }
        Ok(id)
    }

    /// Removes the provider of `scheme`.
    pub fn unregister_file_system_provider(&mut self, scheme: &str) -> (r: Result<(), String>)
        requires
            old(self).wf(),
        ensures
            final(self).wf(),
            final(self).watchers() == old(self).watchers(),
            final(self).providers() == store_remove(old(self).providers(), scheme@),
            lookup(old(self).providers(), scheme@) is Some <==> r is Ok,
            r matches Err(m) ==> m@ == scheme_missing_message(scheme@),
    {
        let ghost before = self.providers();
        match self.providers.remove(scheme) {
            Some(_) => {
                proof {
                    let after = self.providers();
                    let i = crate::store::key_index(before, scheme@);
                    crate::store::lemma_key_index_bounds(before, scheme@);
                    assert(after == before.remove(i));
                    assert forall|k: int| 0 <= k < after.len() implies (#[trigger] after[k]).0
                        == after[k].1.scheme@ by {
                        if k < i {
                            assert(after[k] == before[k]);
                        } else {
                            assert(after[k] == before[k + 1]);
                        }
                    }
                }
                Ok(())
            },
            None => {
                let a = concat("No file system provider found for scheme '", scheme);
                Err(concat(a.as_str(), "'"))
            },
        }
    }

    /// A copy of the provider of `scheme`.
    pub fn get_file_system_provider(&self, scheme: &str) -> (r: Result<FileSystemProvider, String>)
        ensures
            match lookup(self.providers(), scheme@) {
                Some(p) => r == Ok::<FileSystemProvider, String>(p),
                None => r matches Err(m) && m@ == scheme_missing_message(scheme@),
            },
    {
        match self.providers.get(scheme) {
            Some(p) => Ok(p),
            None => {
                let a = concat("No file system provider found for scheme '", scheme);
                Err(concat(a.as_str(), "'"))
            },
        }
    }

    /// Copies of all providers, in registration order.
    pub fn get_all_file_system_providers(&self) -> (r: Vec<FileSystemProvider>)
        ensures
            r@ == values_of(self.providers()),
    {
        let r = self.providers.values();
        assert(r@ =~= views(r@));
        r
    }

    /// Records a watcher under its id, replacing one with the same id.
    pub fn create_file_watcher(&mut self, watcher: FileWatcher) -> (r: Result<String, String>)
        requires
            old(self).wf(),
        ensures
            final(self).wf(),
            final(self).providers() == old(self).providers(),
            final(self).watchers() == store_insert(old(self).watchers(), watcher.id@, watcher),
            r matches Ok(id) && id@ == watcher.id@,
    {
        let ghost before = self.watchers();
        let ghost wv = watcher;
        let id = watcher.id.clone();
        let key = watcher.id.clone();
        self.watchers.insert(key, watcher);
        proof {
            crate::store::lemma_key_index_bounds(before, wv.id@);
            let after = self.watchers();
            assert forall|i: int| 0 <= i < after.len() implies (#[trigger] after[i]).0
                == after[i].1.id@ by {
                if i < before.len() && i != crate::store::key_index(before, wv.id@) {
                    assert(after[i] == before[i]);
                }
            }
        }
        Ok(id)
    }

    /// Removes the watcher with `watcher_id`.
    pub fn dispose_file_watcher(&mut self, watcher_id: &str) -> (r: Result<(), String>)
        requires
            old(self).wf(),
        ensures
            final(self).wf(),
            final(self).providers() == old(self).providers(),
            final(self).watchers() == store_remove(old(self).watchers(), watcher_id@),
            lookup(old(self).watchers(), watcher_id@) is Some <==> r is Ok,
            r matches Err(m) ==> m@ == watcher_missing_message(watcher_id@),
    {
        let ghost before = self.watchers();
        match self.watchers.remove(watcher_id) {
            Some(_) => {
                proof {
                    let after = self.watchers();
                    let i = crate::store::key_index(before, watcher_id@);
                    crate::store::lemma_key_index_bounds(before, watcher_id@);
                    assert(after == before.remove(i));
                    assert forall|k: int| 0 <= k < after.len() implies (#[trigger] after[k]).0
                        == after[k].1.id@ by {
                        if k < i {
                            assert(after[k] == before[k]);
                        } else {
                            assert(after[k] == before[k + 1]);
                        }
                    }
                }
                Ok(())
            },
            None => Err(concat("File watcher not found: ", watcher_id)),
        }
    }

    /// A copy of the watcher with `watcher_id`.
    pub fn get_file_watcher(&self, watcher_id: &str) -> (r: Result<FileWatcher, String>)
        ensures
            match lookup(self.watchers(), watcher_id@) {
                Some(w) => r == Ok::<FileWatcher, String>(w),
                None => r matches Err(m) && m@ == watcher_missing_message(watcher_id@),
            },
    {
        match self.watchers.get(watcher_id) {
            Some(w) => Ok(w),
            None => Err(concat("File watcher not found: ", watcher_id)),
        }
    }

    /// Copies of all watchers, in creation order.
    pub fn get_all_file_watchers(&self) -> (r: Vec<FileWatcher>)
        ensures
            r@ == values_of(self.watchers()),
    {
        let r = self.watchers.values();
        assert(r@ =~= views(r@));
        r
    }

    /// The ids of the watchers that hear of `event`, in watcher order; the
    /// caller delivers the event to each.
    pub fn emit_file_change_event(&self, event: &FileChangeEvent) -> (r: Result<Vec<String>, String>)
        ensures
            r matches Ok(ids) && ids@.map_values(|s: String| s@) == listeners(
                values_of(self.watchers()),
                event.uri@,
                event.change_type,
            ),
    {
        let all = self.watchers.values();
        let ghost ws = all@;
        assert(ws =~= views(ws));
        let mut out: Vec<String> = Vec::new();
        let mut i: usize = 0;
        while i < all.len()
            invariant
                i <= all@.len(),
                ws == all@,
                out@.map_values(|s: String| s@) == listeners(ws.take(i as int), event.uri@, event.change_type),
            decreases all@.len() - i,
        {
            assert(ws.take(i + 1).drop_last() =~= ws.take(i as int));
            let w = &all[i];
            let ignored = match event.change_type {
                FileChangeType::Created => w.ignore_create_events,
                FileChangeType::Changed => w.ignore_change_events,
                FileChangeType::Deleted => w.ignore_delete_events,
            };
            if !ignored && matches_glob_pattern(event.uri.as_str(), w.glob_pattern.as_str()) {
                out.push(w.id.clone());
                assert(out@.map_values(|s: String| s@) =~= listeners(ws.take(i as int), event.uri@, event.change_type).push(w.id@));
            }
            i = i + 1;
        }
        assert(ws.take(i as int) =~= ws);
        Ok(out)
    }

    /// Removes the providers and watchers contributed by `owner`.
    pub fn clear_filesystem_data(&mut self, owner: &str)
        requires
            old(self).wf(),
        ensures
            final(self).wf(),
            final(self).providers() == old(self).providers().filter(
                |e: (Seq<char>, FileSystemProvider)| e.1.owner@ != owner@,
            ),
            final(self).watchers() == old(self).watchers().filter(
                |e: (Seq<char>, FileWatcher)| e.1.owner@ != owner@,
            ),
    {
        let ghost pb = self.providers();
        let ghost pp = |e: (Seq<char>, FileSystemProvider)| e.1.owner@ != owner@;
        let n = self.providers.len();
        let mut keep: Vec<bool> = Vec::new();
        let mut i: usize = 0;
        while i < n
            invariant
                n == pb.len(),
                pb == self.providers(),
                i <= n,
                keep@.len() == i,
                pp == (|e: (Seq<char>, FileSystemProvider)| e.1.owner@ != owner@),
                forall|k: int| 0 <= k < i ==> keep@[k] == pp(#[trigger] pb[k]),
            decreases n - i,
        {
            let (_, p) = self.providers.entry_at(i);
            keep.push(!str_eq(p.owner.as_str(), owner));
            i = i + 1;
        }
        self.providers.retain_mask(&keep);
        let ghost wb = self.watchers();
        let ghost wp = |e: (Seq<char>, FileWatcher)| e.1.owner@ != owner@;
        let m = self.watchers.len();
        let mut keep2: Vec<bool> = Vec::new();
        let mut j: usize = 0;
        while j < m
            invariant
                m == wb.len(),
                wb == self.watchers(),
                j <= m,
                keep2@.len() == j,
                wp == (|e: (Seq<char>, FileWatcher)| e.1.owner@ != owner@),
                forall|k: int| 0 <= k < j ==> keep2@[k] == wp(#[trigger] wb[k]),
            decreases m - j,
        {
            let (_, w) = self.watchers.entry_at(j);
            keep2.push(!str_eq(w.owner.as_str(), owner));
            j = j + 1;
        }
        self.watchers.retain_mask(&keep2);
        proof {
            broadcast use vstd::seq_lib::group_filter_ensures;

            crate::store::lemma_filter_mask_is_filter(pb, keep@, pp);
            crate::store::lemma_filter_mask_is_filter(wb, keep2@, wp);
            let pa = self.providers();
            assert forall|k: int| 0 <= k < pa.len() implies (#[trigger] pa[k]).0
                == pa[k].1.scheme@ by {
                assert(pb.filter(pp).contains(pa[k]));
                pb.lemma_filter_contains_rev(pp, pa[k]);
            }
            let wa = self.watchers();
            assert forall|k: int| 0 <= k < wa.len() implies (#[trigger] wa[k]).0 == wa[k].1.id@ by {
                assert(wb.filter(wp).contains(wa[k]));
                wb.lemma_filter_contains_rev(wp, wa[k]);
            }
        }
    }
}

pub open spec fn exists_message(uri: Seq<char>) -> Seq<char> {
    "File already exists: "@ + uri
}

pub open spec fn not_found_message(uri: Seq<char>) -> Seq<char> {
    "File not found: "@ + uri
}

/// Whether to create the file of a create operation, given whether it exists:
/// `Ok(true)` to create it, `Ok(false)` to skip the operation.
pub fn plan_create_file(uri: &str, exists: bool, options: Option<CreateFileOptions>) -> (r: Result<
    bool,
    String,
>)
    ensures
        !exists ==> r == Ok::<bool, String>(true),
        exists ==> match options {
            Some(o) => if o.ignore_if_exists {
                r == Ok::<bool, String>(false)
            } else if o.overwrite {
                r == Ok::<bool, String>(true)
            } else {
                r matches Err(m) && m@ == exists_message(uri@)
            },
            None => r matches Err(m) && m@ == exists_message(uri@),
        },
{
    if exists {
        match options {
            Some(o) => {
                if o.ignore_if_exists {
                    return Ok(false);
                }
                if !o.overwrite {
                    return Err(concat("File already exists: ", uri));
                }
            },
            None => {
                return Err(concat("File already exists: ", uri));
            },
        }
    }
    Ok(true)
}

/// Whether to delete the file of a delete operation, given whether it exists:
/// `Ok(Some(recursive))` to delete it, `Ok(None)` to skip the operation.
pub fn plan_delete_file(uri: &str, exists: bool, options: Option<DeleteFileOptions>) -> (r: Result<
    Option<bool>,
    String,
>)
    ensures
        exists ==> r == Ok::<Option<bool>, String>(
            Some(
                match options {
                    Some(o) => o.recursive,
                    None => false,
                },
            ),
        ),
        !exists ==> match options {
            Some(o) => if o.ignore_if_not_exists {
                r == Ok::<Option<bool>, String>(None)
            } else {
                r matches Err(m) && m@ == not_found_message(uri@)
            },
            None => r matches Err(m) && m@ == not_found_message(uri@),
        },
{
    if !exists {
        if let Some(o) = options {
            if o.ignore_if_not_exists {
                return Ok(None);
            }
        }
        return Err(concat("File not found: ", uri));
    }
    let recursive = match options {
        Some(o) => o.recursive,
        None => false,
    };
    Ok(Some(recursive))
}

/// Whether a rename may go ahead, given whether its target exists.
pub fn plan_rename_file(new_uri: &str, new_exists: bool, options: Option<RenameFileOptions>) -> (r:
    Result<(), String>)
    ensures
        (!new_exists || (options matches Some(o) && o.overwrite)) <==> r is Ok,
        r matches Err(m) ==> m@ == exists_message(new_uri@),
{
    if new_exists {
        match options {
            Some(o) => {
                if !o.overwrite {
                    return Err(concat("File already exists: ", new_uri));
                }
            },
            None => {
                return Err(concat("File already exists: ", new_uri));
            },
        }
    }
    Ok(())
}

/// The changes an applied operation reports, in order.
pub open spec fn edit_changes(edit: FileEdit) -> Seq<(Seq<char>, FileChangeType)> {
    match edit {
        FileEdit::CreateFile { uri, .. } => seq![(uri@, FileChangeType::Created)],
        FileEdit::DeleteFile { uri, .. } => seq![(uri@, FileChangeType::Deleted)],
        FileEdit::RenameFile { old_uri, new_uri, .. } => seq![
            (old_uri@, FileChangeType::Deleted),
            (new_uri@, FileChangeType::Created),
        ],
        FileEdit::TextEdit { uri, .. } => seq![(uri@, FileChangeType::Changed)],
    }
}

/// The change events an applied operation reports.
pub fn edit_change_events(edit: &FileEdit) -> (r: Vec<FileChangeEvent>)
    ensures
        r@.map_values(|e: FileChangeEvent| (e.uri@, e.change_type)) == edit_changes(*edit),
{
    let r = match edit {
        FileEdit::CreateFile { uri, .. } => vec![
            FileChangeEvent { uri: uri.clone(), change_type: FileChangeType::Created },
        ],
        FileEdit::DeleteFile { uri, .. } => vec![
            FileChangeEvent { uri: uri.clone(), change_type: FileChangeType::Deleted },
        ],
        FileEdit::RenameFile { old_uri, new_uri, .. } => vec![
            FileChangeEvent { uri: old_uri.clone(), change_type: FileChangeType::Deleted },
            FileChangeEvent { uri: new_uri.clone(), change_type: FileChangeType::Created },
        ],
        FileEdit::TextEdit { uri, .. } => vec![
            FileChangeEvent { uri: uri.clone(), change_type: FileChangeType::Changed },
        ],
    };
    assert(r@.map_values(|e: FileChangeEvent| (e.uri@, e.change_type)) =~= edit_changes(*edit));
    r
}

/// The type of a file from what its metadata says: a directory first, then a
/// symbolic link, then a regular file.
pub fn file_type_of(is_dir: bool, is_symlink: bool, is_file: bool) -> (r: FileType)
    ensures
        r == if is_dir {
            FileType::Directory
        } else if is_symlink {
            FileType::SymbolicLink
        } else if is_file {
            FileType::File
        } else {
            FileType::Unknown
        },
{
    if is_dir {
        FileType::Directory
    } else if is_symlink {
        FileType::SymbolicLink
    } else if is_file {
        FileType::File
    } else {
        FileType::Unknown
    }
}

} // verus!

verus! {

/// The name and kind of a directory entry.
pub open spec fn entry_view(e: DirectoryEntry) -> (Seq<char>, FileType) {
    (e.name@, e.file_type)
}

/// Directory entries are listed by name, in character order.
pub open spec fn entry_name_key() -> spec_fn((Seq<char>, FileType)) -> (int, Seq<char>) {
    |e: (Seq<char>, FileType)| (0int, e.0)
}

/// A directory's entries as a provider lists them: sorted by name, entries
/// with equal names in the order they were read.
pub fn sort_directory_entries(entries: Vec<DirectoryEntry>) -> (r: Vec<DirectoryEntry>)
    ensures
        r@.map_values(|e: DirectoryEntry| entry_view(e)) == crate::order::ranked_sort(
            entries@.map_values(|e: DirectoryEntry| entry_view(e)),
            entry_name_key(),
        ),
{
    let ghost s0 = entries@;
    let ghost s = entries@.map_values(|e: DirectoryEntry| entry_view(e));
    let ghost key = entry_name_key();
    let n = entries.len();
    let mut entries = entries;
    let mut taken: Vec<DirectoryEntry> = Vec::new();
    while entries.len() > 0
        invariant
            entries@.len() + taken@.len() == n,
            n == s0.len(),
            entries@ == s0.take(entries@.len() as int),
            forall|k: int| 0 <= k < taken@.len() ==> #[trigger] taken@[k] == s0[n - 1 - k],
        decreases entries@.len(),
    {
        let e = entries.pop().unwrap();
        taken.push(e);
        assert(entries@ =~= s0.take(entries@.len() as int));
    }
    let mut out: Vec<DirectoryEntry> = Vec::new();
    let mut i: usize = 0;
    assert(out@.map_values(|e: DirectoryEntry| entry_view(e)) =~= crate::order::ranked_sort(s.take(0), key));
    while taken.len() > 0
        invariant
            n == s0.len(),
            s == s0.map_values(|e: DirectoryEntry| entry_view(e)),
            i + taken@.len() == n,
            forall|k: int| 0 <= k < taken@.len() ==> #[trigger] taken@[k] == s0[n - 1 - k],
            key == entry_name_key(),
            out@.map_values(|e: DirectoryEntry| entry_view(e)) == crate::order::ranked_sort(s.take(i as int), key),
        decreases taken@.len(),
    {
        let e = taken.pop().unwrap();
        assert(e == s0[i as int]);
        let ghost ev = entry_view(e);
        assert(s.take(i + 1).drop_last() =~= s.take(i as int));
        assert(s.take(i + 1).last() == ev);
        let ghost before = out@.map_values(|e: DirectoryEntry| entry_view(e));
        let mut j: usize = out.len();
        assert(before.take(j as int) =~= before);
        while j > 0 && crate::order::str_lt(e.name.as_str(), out[j - 1].name.as_str())
            invariant
                j <= out@.len(),
                before == out@.map_values(|e: DirectoryEntry| entry_view(e)),
                key == entry_name_key(),
                ev == entry_view(e),
                crate::order::ranked_insertion_point(before, ev, key) == crate::order::ranked_insertion_point(
                    before.take(j as int),
                    ev,
                    key,
                ),
            decreases j,
        {
            assert(before.take(j as int).drop_last() =~= before.take(j - 1));
            assert(before.take(j as int).last() == before[j - 1]);
            j = j - 1;
        }
        proof {
            if j > 0 {
                assert(before.take(j as int).last() == before[j - 1]);
            }
        }
        out.insert(j, e);
        assert(out@.map_values(|e: DirectoryEntry| entry_view(e)) =~= before.insert(j as int, ev));
        i = i + 1;
    }
    assert(s.take(n as int) =~= s);
    out
}

} // verus!
