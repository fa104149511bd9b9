//! The explorer's rules over the file system: which entries are listed, in
//! what order, which names a file search finds, the checks before a file
//! operation, and the language of a file.
use vstd::prelude::*;
use crate::order::{ranked_sort, ranked_insertion_point, str_lt};
use crate::text::{lowercase, to_lowercase, owned, str_eq, starts_with, starts_with_spec, contains, contains_spec};
use crate::paths::extension_spec;

verus! {

/// An entry of the explorer tree.
pub struct FileNode {
    pub name: String,
    pub path: String,
    /// `directory` or `file`.
    pub node_type: String,
    /// The entries of a directory read to some depth.
    pub children: Option<Vec<FileNode>>,
}

/// A file or directory found by name.
pub struct FileSearchResult {
    pub name: String,
    pub path: String,
    pub node_type: String,
}

/// Mathematical form of a [`FileSearchResult`].
pub struct FileSearchResultView {
    pub name: Seq<char>,
    pub path: Seq<char>,
    pub node_type: Seq<char>,
}

impl View for FileSearchResult {
    type V = FileSearchResultView;

    open spec fn view(&self) -> FileSearchResultView {
        FileSearchResultView { name: self.name@, path: self.path@, node_type: self.node_type@ }
    }
}

/// An entry read from a directory, with the children read under it.
pub struct DirEntry {
    pub name: String,
    pub path: String,
    pub is_dir: bool,
    pub children: Option<Vec<FileNode>>,
}

/// Whether the explorer leaves an entry out: hidden names, `node_modules`
/// and `target`.
pub open spec fn skipped_spec(name: Seq<char>) -> bool {
    starts_with_spec(name, "."@) || name == "node_modules"@ || name == "target"@
}

/// Whether the explorer leaves out an entry named `name`.
pub fn is_skipped_entry(name: &str) -> (r: bool)
    ensures
        r == skipped_spec(name@),
{
    starts_with(name, ".") || str_eq(name, "node_modules") || str_eq(name, "target")
}

/// The node type of an entry.
pub open spec fn node_type_spec(is_dir: bool) -> Seq<char> {
    if is_dir {
        "directory"@
    } else {
        "file"@
    }
}

/// What the explorer orders an entry by: directories first, then the
/// lowercased name.
pub open spec fn entry_key() -> spec_fn(DirEntryView) -> (int, Seq<char>) {
    |e: DirEntryView| (if e.is_dir { 0int } else { 1int }, lowercase(e.name))
}

/// The part of a [`DirEntry`] its place in a listing depends on, with the
/// children it carries.
pub struct DirEntryView {
    pub name: Seq<char>,
    pub path: Seq<char>,
    pub is_dir: bool,
    pub children: Option<Vec<FileNode>>,
}

impl View for DirEntry {
    type V = DirEntryView;

    open spec fn view(&self) -> DirEntryView {
        DirEntryView { name: self.name@, path: self.path@, is_dir: self.is_dir, children: self.children }
    }
}

/// The entry a node was made from.
pub open spec fn node_entry(nd: FileNode) -> DirEntryView {
    DirEntryView { name: nd.name@, path: nd.path@, is_dir: nd.node_type@ == "directory"@, children: nd.children }
}

/// The entries a listing shows, in its order: the entries that are not left
/// out, directories first, then by lowercased name, equal keys in read order.
pub open spec fn listing_spec(entries: Seq<DirEntryView>) -> Seq<DirEntryView> {
    ranked_sort(entries.filter(|e: DirEntryView| !skipped_spec(e.name)), entry_key())
}

proof fn lemma_node_types()
    ensures
        "directory"@ != "file"@,
{
    reveal_strlit("directory");
    reveal_strlit("file");
    assert("directory"@ != "file"@) by {
        assert("directory"@[0] != "file"@[0]);
    }
}

/// The explorer's listing of a directory's entries, as read: entries left
/// out are dropped, the rest become nodes, directories first and then by
/// lowercased name (stably). Each node keeps the children read under it.
pub fn plan_directory_listing(entries: Vec<DirEntry>) -> (r: Vec<FileNode>)
    ensures
        r@.map_values(|nd: FileNode| node_entry(nd)) == listing_spec(entries@.map_values(|e: DirEntry| e@)),
        forall|i: int| 0 <= i < r@.len() ==> (#[trigger] r@[i]).node_type@ == "directory"@ || r@[i].node_type@ == "file"@,
{
    let ghost s0 = entries@;
    let ghost s = entries@.map_values(|e: DirEntry| e@);
    let ghost pred = |e: DirEntryView| !skipped_spec(e.name);
    let ghost key = entry_key();
    let n = entries.len();
    let mut entries = entries;
    let mut taken: Vec<DirEntry> = Vec::new();
    while entries.len() > 0
        invariant
            entries@.len() + taken@.len() == n,
            n == s0.len(),
            entries@ == s0.take(entries@.len() as int),
            forall|k: int| 0 <= k < taken@.len() ==> #[trigger] taken@[k] == s0[n - 1 - k],
        decreases entries@.len(),
    {
        let e = entries.pop().unwrap();
        taken.push(e);
        assert(entries@ =~= s0.take(entries@.len() as int));
    }
    proof {
        lemma_node_types();
    }
    let mut out: Vec<FileNode> = Vec::new();
    let mut keys: Vec<(u8, String)> = Vec::new();
    let mut i: usize = 0;
    assert(s.take(0).filter(pred) =~= Seq::<DirEntryView>::empty()) by {
        reveal(Seq::filter);
    }
    assert(out@.map_values(|nd: FileNode| node_entry(nd)) =~= Seq::<DirEntryView>::empty());
    while taken.len() > 0
        invariant
            n == s0.len(),
            s == s0.map_values(|e: DirEntry| e@),
            i + taken@.len() == n,
            forall|k: int| 0 <= k < taken@.len() ==> #[trigger] taken@[k] == s0[n - 1 - k],
            pred == (|e: DirEntryView| !skipped_spec(e.name)),
            key == entry_key(),
            "directory"@ != "file"@,
            out@.map_values(|nd: FileNode| node_entry(nd)) == ranked_sort(s.take(i as int).filter(pred), key),
            keys@.len() == out@.len(),
            forall|k: int| 0 <= k < out@.len() ==> (#[trigger] out@[k]).node_type@ == "directory"@ || out@[k].node_type@ == "file"@,
            forall|k: int| 0 <= k < out@.len() ==> key(node_entry(#[trigger] out@[k])) == (keys@[k].0 as int, keys@[k].1@),
        decreases taken@.len(),
    {
        let e = taken.pop().unwrap();
        assert(e == s0[i as int]);
        let ghost ev = e@;
        assert(ev == s[i as int]);
        proof {
            assert(s.take(i + 1) =~= s.take(i as int).push(s[i as int]));
            s.take(i as int).lemma_filter_push(s[i as int], pred);
        }
        if !is_skipped_entry(e.name.as_str()) {
            let rank: u8 = if e.is_dir { 0 } else { 1 };
            let lower = to_lowercase(e.name.as_str());
            let node = FileNode {
                name: e.name,
                path: e.path,
                node_type: if e.is_dir { owned("directory") } else { owned("file") },
                children: e.children,
            };
            assert(node_entry(node) == ev);
            assert(key(ev) == (rank as int, lower@));
            let ghost before = out@.map_values(|nd: FileNode| node_entry(nd));
            let ghost filtered = s.take(i as int).filter(pred);
            let mut j: usize = out.len();
            assert(before.take(j as int) =~= before);
            while j > 0 && (rank < keys[j - 1].0 || (rank == keys[j - 1].0 && str_lt(lower.as_str(), keys[j - 1].1.as_str())))
                invariant
                    j <= out@.len(),
                    keys@.len() == out@.len(),
                    before == out@.map_values(|nd: FileNode| node_entry(nd)),
                    key == entry_key(),
                    forall|k: int| 0 <= k < out@.len() ==> key(node_entry(#[trigger] out@[k])) == (keys@[k].0 as int, keys@[k].1@),
                    key(ev) == (rank as int, lower@),
                    ranked_insertion_point(before, ev, key) == ranked_insertion_point(before.take(j as int), ev, key),
                decreases j,
            {
                assert(before.take(j as int).drop_last() =~= before.take(j - 1));
                assert(before.take(j as int).last() == before[j - 1]);
                assert(key(before[j - 1]) == (keys@[j - 1].0 as int, keys@[j - 1].1@));
                j = j - 1;
            }
            proof {
                if j > 0 {
                    assert(before.take(j as int).last() == before[j - 1]);
                    assert(key(before[j - 1]) == (keys@[j - 1].0 as int, keys@[j - 1].1@));
                }
                assert(filtered.push(ev).drop_last() =~= filtered);
            }
            let ghost os = out@;
            let ghost ks = keys@;
            out.insert(j, node);
            keys.insert(j, (rank, lower));
            assert(out@.map_values(|nd: FileNode| node_entry(nd)) =~= before.insert(j as int, ev));
            assert forall|k: int| 0 <= k < out@.len() implies key(node_entry(#[trigger] out@[k])) == (keys@[k].0 as int, keys@[k].1@)
                && (out@[k].node_type@ == "directory"@ || out@[k].node_type@ == "file"@) by {
                if k < j {
                    assert(out@[k] == os[k]);
                    assert(keys@[k] == ks[k]);
                } else if k > j {
                    assert(out@[k] == os[k - 1]);
                    assert(keys@[k] == ks[k - 1]);
                }
            }
        }
        i = i + 1;
    }
    assert(s.take(n as int) =~= s);
    out
}

} // verus!

verus! {

/// A listing shows no entry it leaves out, and no directory after a file.
pub proof fn lemma_listing_order(entries: Seq<DirEntryView>)
    ensures
        forall|i: int, j: int|
            0 <= i < j < listing_spec(entries).len() ==> !((#[trigger] listing_spec(entries)[j]).is_dir
                && !(#[trigger] listing_spec(entries)[i]).is_dir),
{
    let pred = |e: DirEntryView| !skipped_spec(e.name);
    crate::order::lemma_ranked_sort_sorted(entries.filter(pred), entry_key());
}

/// The result a file search gives for an entry: entries left out are never
/// found, others when their lowercased name holds the lowercased query.
pub open spec fn search_hit_spec(name: Seq<char>, path: Seq<char>, is_dir: bool, query_lower: Seq<char>) -> Option<
    FileSearchResultView,
> {
    if !skipped_spec(name) && contains_spec(lowercase(name), query_lower) {
        Some(FileSearchResultView { name, path, node_type: node_type_spec(is_dir) })
    } else {
        None
    }
}

/// What a search for `query_lower` (already lowercased) finds in one entry.
pub fn file_search_hit(name: String, path: String, is_dir: bool, query_lower: &str) -> (r: Option<FileSearchResult>)
    ensures
        match r {
            Some(h) => search_hit_spec(name@, path@, is_dir, query_lower@) == Some(h@),
            None => search_hit_spec(name@, path@, is_dir, query_lower@) is None,
        },
{
    if is_skipped_entry(name.as_str()) {
        return None;
    }
    let lower = to_lowercase(name.as_str());
    if contains(lower.as_str(), query_lower) {
        Some(FileSearchResult {
            name,
            path,
            node_type: if is_dir { owned("directory") } else { owned("file") },
        })
    } else {
        None
    }
}

/// The query a file search matches names against.
pub fn search_query(query: &str) -> (r: String)
    ensures
        r@ == lowercase(query@),
{
    to_lowercase(query)
}

/// The language an extension denotes, `plaintext` for any other.
pub open spec fn language_of_extension(ext: Seq<char>) -> Seq<char> {
    if ext == "rs"@ {
        "rust"@
    } else if ext == "js"@ || ext == "mjs"@ || ext == "jsx"@ {
        "javascript"@
    } else if ext == "ts"@ || ext == "tsx"@ {
        "typescript"@
    } else if ext == "py"@ {
        "python"@
    } else if ext == "go"@ {
        "go"@
    } else if ext == "java"@ {
        "java"@
    } else if ext == "c"@ {
        "c"@
    } else if ext == "cpp"@ || ext == "cc"@ || ext == "cxx"@ || ext == "h"@ || ext == "hpp"@ {
        "cpp"@
    } else if ext == "cs"@ {
        "csharp"@
    } else if ext == "rb"@ {
        "ruby"@
    } else if ext == "php"@ {
        "php"@
    } else if ext == "swift"@ {
        "swift"@
    } else if ext == "kt"@ {
        "kotlin"@
    } else if ext == "scala"@ {
        "scala"@
    } else if ext == "sh"@ || ext == "bash"@ {
        "shell"@
    } else if ext == "json"@ {
        "json"@
    } else if ext == "xml"@ {
        "xml"@
    } else if ext == "html"@ || ext == "htm"@ {
        "html"@
    } else if ext == "css"@ {
        "css"@
    } else if ext == "scss"@ || ext == "sass"@ {
        "scss"@
    } else if ext == "md"@ || ext == "markdown"@ {
        "markdown"@
    } else if ext == "yaml"@ || ext == "yml"@ {
        "yaml"@
    } else if ext == "toml"@ {
        "toml"@
    } else if ext == "sql"@ {
        "sql"@
    } else {
        "plaintext"@
    }
}

fn language_for(ext: &str) -> (r: &'static str)
    ensures
        r@ == language_of_extension(ext@),
{
    if str_eq(ext, "rs") {
        "rust"
    } else if str_eq(ext, "js") || str_eq(ext, "mjs") || str_eq(ext, "jsx") {
        "javascript"
    } else if str_eq(ext, "ts") || str_eq(ext, "tsx") {
        "typescript"
    } else if str_eq(ext, "py") {
        "python"
    } else if str_eq(ext, "go") {
        "go"
    } else if str_eq(ext, "java") {
        "java"
    } else if str_eq(ext, "c") {
        "c"
    } else if str_eq(ext, "cpp") || str_eq(ext, "cc") || str_eq(ext, "cxx") || str_eq(ext, "h") || str_eq(ext, "hpp") {
        "cpp"
    } else if str_eq(ext, "cs") {
        "csharp"
    } else if str_eq(ext, "rb") {
        "ruby"
    } else if str_eq(ext, "php") {
        "php"
    } else if str_eq(ext, "swift") {
        "swift"
    } else if str_eq(ext, "kt") {
        "kotlin"
    } else if str_eq(ext, "scala") {
        "scala"
    } else if str_eq(ext, "sh") || str_eq(ext, "bash") {
        "shell"
    } else if str_eq(ext, "json") {
        "json"
    } else if str_eq(ext, "xml") {
        "xml"
    } else if str_eq(ext, "html") || str_eq(ext, "htm") {
        "html"
    } else if str_eq(ext, "css") {
        "css"
    } else if str_eq(ext, "scss") || str_eq(ext, "sass") {
        "scss"
    } else if str_eq(ext, "md") || str_eq(ext, "markdown") {
        "markdown"
    } else if str_eq(ext, "yaml") || str_eq(ext, "yml") {
        "yaml"
    } else if str_eq(ext, "toml") {
        "toml"
    } else if str_eq(ext, "sql") {
        "sql"
    } else {
        "plaintext"
    }
}

/// The language of the file at `path`, from its extension (none counts as
/// the empty one); always succeeds.
pub fn get_file_language(path: String) -> (r: Result<String, String>)
    ensures
        r matches Ok(l) && l@ == language_of_extension(
            match extension_spec(path@) {
                Some(e) => e,
                None => Seq::empty(),
            },
        ),
{
    let ext = match crate::paths::extension(path.as_str()) {
        Some(e) => e,
        None => {
            proof {
                reveal_strlit("");
            }
            owned("")
        },
    };
    assert(ext@ == match extension_spec(path@) {
        Some(e) => e,
        None => Seq::<char>::empty(),
    });
    let lang = language_for(ext.as_str());
    let out = owned(lang);
    assert(out@ == language_of_extension(ext@));
    Ok(out)
}

/// Whether a new file may be created where something `exists`.
pub fn check_create_file(exists: bool) -> (r: Result<(), String>)
    ensures
        exists <==> (r matches Err(e) && e@ == "File already exists"@),
        !exists <==> r is Ok,
{
    if exists { Err(owned("File already exists")) } else { Ok(()) }
}

/// Whether a new folder may be created where something `exists`.
pub fn check_create_folder(exists: bool) -> (r: Result<(), String>)
    ensures
        exists <==> (r matches Err(e) && e@ == "Folder already exists"@),
        !exists <==> r is Ok,
{
    if exists { Err(owned("Folder already exists")) } else { Ok(()) }
}

/// Whether the path may be deleted as a file.
pub fn check_delete_file(exists: bool, is_dir: bool) -> (r: Result<(), String>)
    ensures
        !exists ==> (r matches Err(e) && e@ == "File does not exist"@),
        exists && is_dir ==> (r matches Err(e) && e@ == "Path is a directory, not a file"@),
        exists && !is_dir ==> r is Ok,
{
    if !exists {
        Err(owned("File does not exist"))
    } else if is_dir {
        Err(owned("Path is a directory, not a file"))
    } else {
        Ok(())
    }
}

/// Whether the path may be deleted as a folder.
pub fn check_delete_folder(exists: bool, is_dir: bool) -> (r: Result<(), String>)
    ensures
        !exists ==> (r matches Err(e) && e@ == "Folder does not exist"@),
        exists && !is_dir ==> (r matches Err(e) && e@ == "Path is not a directory"@),
        exists && is_dir ==> r is Ok,
{
    if !exists {
        Err(owned("Folder does not exist"))
    } else if !is_dir {
        Err(owned("Path is not a directory"))
    } else {
        Ok(())
    }
}

/// Whether a path may be renamed onto another.
pub fn check_rename(old_exists: bool, new_exists: bool) -> (r: Result<(), String>)
    ensures
        !old_exists ==> (r matches Err(e) && e@ == "Path does not exist"@),
        old_exists && new_exists ==> (r matches Err(e) && e@ == "Destination path already exists"@),
        old_exists && !new_exists ==> r is Ok,
{
    if !old_exists {
        Err(owned("Path does not exist"))
    } else if new_exists {
        Err(owned("Destination path already exists"))
    } else {
        Ok(())
    }
}

/// The language a file's extension gives it, for every path: each extension
/// the editor knows names its language (`py` is Python, `rs` Rust, `h` C++,
/// and so on); a path without an extension, or with any other, is plain text.
pub proof fn lemma_language_by_extension(path: Seq<char>)
    ensures
        extension_spec(path) == Some("rs"@) ==> language_of_extension(match extension_spec(path) { Some(e) => e, None => Seq::empty() }) == "rust"@,
        extension_spec(path) == Some("js"@) ==> language_of_extension(match extension_spec(path) { Some(e) => e, None => Seq::empty() }) == "javascript"@,
        extension_spec(path) == Some("mjs"@) ==> language_of_extension(match extension_spec(path) { Some(e) => e, None => Seq::empty() }) == "javascript"@,
        extension_spec(path) == Some("ts"@) ==> language_of_extension(match extension_spec(path) { Some(e) => e, None => Seq::empty() }) == "typescript"@,
        extension_spec(path) == Some("jsx"@) ==> language_of_extension(match extension_spec(path) { Some(e) => e, None => Seq::empty() }) == "javascript"@,
        extension_spec(path) == Some("tsx"@) ==> language_of_extension(match extension_spec(path) { Some(e) => e, None => Seq::empty() }) == "typescript"@,
        extension_spec(path) == Some("py"@) ==> language_of_extension(match extension_spec(path) { Some(e) => e, None => Seq::empty() }) == "python"@,
        extension_spec(path) == Some("go"@) ==> language_of_extension(match extension_spec(path) { Some(e) => e, None => Seq::empty() }) == "go"@,
        extension_spec(path) == Some("java"@) ==> language_of_extension(match extension_spec(path) { Some(e) => e, None => Seq::empty() }) == "java"@,
        extension_spec(path) == Some("c"@) ==> language_of_extension(match extension_spec(path) { Some(e) => e, None => Seq::empty() }) == "c"@,
        extension_spec(path) == Some("cpp"@) ==> language_of_extension(match extension_spec(path) { Some(e) => e, None => Seq::empty() }) == "cpp"@,
        extension_spec(path) == Some("cc"@) ==> language_of_extension(match extension_spec(path) { Some(e) => e, None => Seq::empty() }) == "cpp"@,
        extension_spec(path) == Some("cxx"@) ==> language_of_extension(match extension_spec(path) { Some(e) => e, None => Seq::empty() }) == "cpp"@,
        extension_spec(path) == Some("h"@) ==> language_of_extension(match extension_spec(path) { Some(e) => e, None => Seq::empty() }) == "cpp"@,
        extension_spec(path) == Some("hpp"@) ==> language_of_extension(match extension_spec(path) { Some(e) => e, None => Seq::empty() }) == "cpp"@,
        extension_spec(path) == Some("cs"@) ==> language_of_extension(match extension_spec(path) { Some(e) => e, None => Seq::empty() }) == "csharp"@,
        extension_spec(path) == Some("rb"@) ==> language_of_extension(match extension_spec(path) { Some(e) => e, None => Seq::empty() }) == "ruby"@,
        extension_spec(path) == Some("php"@) ==> language_of_extension(match extension_spec(path) { Some(e) => e, None => Seq::empty() }) == "php"@,
        extension_spec(path) == Some("swift"@) ==> language_of_extension(match extension_spec(path) { Some(e) => e, None => Seq::empty() }) == "swift"@,
        extension_spec(path) == Some("kt"@) ==> language_of_extension(match extension_spec(path) { Some(e) => e, None => Seq::empty() }) == "kotlin"@,
        extension_spec(path) == Some("scala"@) ==> language_of_extension(match extension_spec(path) { Some(e) => e, None => Seq::empty() }) == "scala"@,
        extension_spec(path) == Some("sh"@) ==> language_of_extension(match extension_spec(path) { Some(e) => e, None => Seq::empty() }) == "shell"@,
        extension_spec(path) == Some("bash"@) ==> language_of_extension(match extension_spec(path) { Some(e) => e, None => Seq::empty() }) == "shell"@,
        extension_spec(path) == Some("json"@) ==> language_of_extension(match extension_spec(path) { Some(e) => e, None => Seq::empty() }) == "json"@,
        extension_spec(path) == Some("xml"@) ==> language_of_extension(match extension_spec(path) { Some(e) => e, None => Seq::empty() }) == "xml"@,
        extension_spec(path) == Some("html"@) ==> language_of_extension(match extension_spec(path) { Some(e) => e, None => Seq::empty() }) == "html"@,
        extension_spec(path) == Some("htm"@) ==> language_of_extension(match extension_spec(path) { Some(e) => e, None => Seq::empty() }) == "html"@,
        extension_spec(path) == Some("css"@) ==> language_of_extension(match extension_spec(path) { Some(e) => e, None => Seq::empty() }) == "css"@,
        extension_spec(path) == Some("scss"@) ==> language_of_extension(match extension_spec(path) { Some(e) => e, None => Seq::empty() }) == "scss"@,
        extension_spec(path) == Some("sass"@) ==> language_of_extension(match extension_spec(path) { Some(e) => e, None => Seq::empty() }) == "scss"@,
        extension_spec(path) == Some("md"@) ==> language_of_extension(match extension_spec(path) { Some(e) => e, None => Seq::empty() }) == "markdown"@,
        extension_spec(path) == Some("markdown"@) ==> language_of_extension(match extension_spec(path) { Some(e) => e, None => Seq::empty() }) == "markdown"@,
        extension_spec(path) == Some("yaml"@) ==> language_of_extension(match extension_spec(path) { Some(e) => e, None => Seq::empty() }) == "yaml"@,
        extension_spec(path) == Some("yml"@) ==> language_of_extension(match extension_spec(path) { Some(e) => e, None => Seq::empty() }) == "yaml"@,
        extension_spec(path) == Some("toml"@) ==> language_of_extension(match extension_spec(path) { Some(e) => e, None => Seq::empty() }) == "toml"@,
        extension_spec(path) == Some("sql"@) ==> language_of_extension(match extension_spec(path) { Some(e) => e, None => Seq::empty() }) == "sql"@,
        extension_spec(path) is None ==> language_of_extension(match extension_spec(path) { Some(e) => e, None => Seq::empty() }) == "plaintext"@,
        (extension_spec(path) matches Some(e) && e != "rs"@ && e != "js"@ && e != "mjs"@ && e != "ts"@ && e != "jsx"@ && e != "tsx"@ && e != "py"@ && e != "go"@ && e != "java"@ && e != "c"@ && e != "cpp"@ && e != "cc"@ && e != "cxx"@ && e != "h"@ && e != "hpp"@ && e != "cs"@ && e != "rb"@ && e != "php"@ && e != "swift"@ && e != "kt"@ && e != "scala"@ && e != "sh"@ && e != "bash"@ && e != "json"@ && e != "xml"@ && e != "html"@ && e != "htm"@ && e != "css"@ && e != "scss"@ && e != "sass"@ && e != "md"@ && e != "markdown"@ && e != "yaml"@ && e != "yml"@ && e != "toml"@ && e != "sql"@) ==> language_of_extension(match extension_spec(path) { Some(e) => e, None => Seq::empty() }) == "plaintext"@,
{
    reveal_strlit("bash");
    reveal_strlit("c");
    reveal_strlit("cc");
    reveal_strlit("cpp");
    reveal_strlit("cs");
    reveal_strlit("csharp");
    reveal_strlit("css");
    reveal_strlit("cxx");
    reveal_strlit("go");
    reveal_strlit("h");
    reveal_strlit("hpp");
    reveal_strlit("htm");
    reveal_strlit("html");
    reveal_strlit("java");
    reveal_strlit("javascript");
    reveal_strlit("js");
    reveal_strlit("json");
    reveal_strlit("jsx");
    reveal_strlit("kotlin");
    reveal_strlit("kt");
    reveal_strlit("markdown");
    reveal_strlit("md");
    reveal_strlit("mjs");
    reveal_strlit("php");
    reveal_strlit("plaintext");
    reveal_strlit("py");
    reveal_strlit("python");
    reveal_strlit("rb");
    reveal_strlit("rs");
    reveal_strlit("ruby");
    reveal_strlit("rust");
    reveal_strlit("sass");
    reveal_strlit("scala");
    reveal_strlit("scss");
    reveal_strlit("sh");
    reveal_strlit("shell");
    reveal_strlit("sql");
    reveal_strlit("swift");
    reveal_strlit("toml");
    reveal_strlit("ts");
    reveal_strlit("tsx");
    reveal_strlit("typescript");
    reveal_strlit("xml");
    reveal_strlit("yaml");
    reveal_strlit("yml");
    assert("bash"@.len() == 4);
    assert("c"@.len() == 1);
    assert("cc"@.len() == 2);
    assert("cpp"@.len() == 3);
    assert("cs"@.len() == 2);
    assert("css"@.len() == 3);
    assert("cxx"@.len() == 3);
    assert("go"@.len() == 2);
    assert("h"@.len() == 1);
    assert("hpp"@.len() == 3);
    assert("htm"@.len() == 3);
    assert("html"@.len() == 4);
    assert("java"@.len() == 4);
    assert("js"@.len() == 2);
    assert("json"@.len() == 4);
    assert("jsx"@.len() == 3);
    assert("kt"@.len() == 2);
    assert("markdown"@.len() == 8);
    assert("md"@.len() == 2);
    assert("mjs"@.len() == 3);
    assert("php"@.len() == 3);
    assert("py"@.len() == 2);
    assert("rb"@.len() == 2);
    assert("rs"@.len() == 2);
    assert("sass"@.len() == 4);
    assert("scala"@.len() == 5);
    assert("scss"@.len() == 4);
    assert("sh"@.len() == 2);
    assert("sql"@.len() == 3);
    assert("swift"@.len() == 5);
    assert("toml"@.len() == 4);
    assert("ts"@.len() == 2);
    assert("tsx"@.len() == 3);
    assert("xml"@.len() == 3);
    assert("yaml"@.len() == 4);
    assert("yml"@.len() == 3);
    assert("bash"@[0] == 'b');
    assert("bash"@[1] == 'a');
    assert("bash"@[2] == 's');
    assert("bash"@[3] == 'h');
    assert("c"@[0] == 'c');
    assert("cc"@[0] == 'c');
    assert("cc"@[1] == 'c');
    assert("cpp"@[0] == 'c');
    assert("cpp"@[1] == 'p');
    assert("cpp"@[2] == 'p');
    assert("cs"@[0] == 'c');
    assert("cs"@[1] == 's');
    assert("css"@[0] == 'c');
    assert("css"@[1] == 's');
    assert("css"@[2] == 's');
    assert("cxx"@[0] == 'c');
    assert("cxx"@[1] == 'x');
    assert("cxx"@[2] == 'x');
    assert("go"@[0] == 'g');
    assert("go"@[1] == 'o');
    assert("h"@[0] == 'h');
    assert("hpp"@[0] == 'h');
    assert("hpp"@[1] == 'p');
    assert("hpp"@[2] == 'p');
    assert("htm"@[0] == 'h');
    assert("htm"@[1] == 't');
    assert("htm"@[2] == 'm');
    assert("html"@[0] == 'h');
    assert("html"@[1] == 't');
    assert("html"@[2] == 'm');
    assert("html"@[3] == 'l');
    assert("java"@[0] == 'j');
    assert("java"@[1] == 'a');
    assert("java"@[2] == 'v');
    assert("java"@[3] == 'a');
    assert("js"@[0] == 'j');
    assert("js"@[1] == 's');
    assert("json"@[0] == 'j');
    assert("json"@[1] == 's');
    assert("json"@[2] == 'o');
    assert("json"@[3] == 'n');
    assert("jsx"@[0] == 'j');
    assert("jsx"@[1] == 's');
    assert("jsx"@[2] == 'x');
    assert("kt"@[0] == 'k');
    assert("kt"@[1] == 't');
    assert("markdown"@[0] == 'm');
    assert("markdown"@[1] == 'a');
    assert("markdown"@[2] == 'r');
    assert("markdown"@[3] == 'k');
    assert("markdown"@[4] == 'd');
    assert("markdown"@[5] == 'o');
    assert("markdown"@[6] == 'w');
    assert("markdown"@[7] == 'n');
    assert("md"@[0] == 'm');
    assert("md"@[1] == 'd');
    assert("mjs"@[0] == 'm');
    assert("mjs"@[1] == 'j');
    assert("mjs"@[2] == 's');
    assert("php"@[0] == 'p');
    assert("php"@[1] == 'h');
    assert("php"@[2] == 'p');
    assert("py"@[0] == 'p');
    assert("py"@[1] == 'y');
    assert("rb"@[0] == 'r');
    assert("rb"@[1] == 'b');
    assert("rs"@[0] == 'r');
    assert("rs"@[1] == 's');
    assert("sass"@[0] == 's');
    assert("sass"@[1] == 'a');
    assert("sass"@[2] == 's');
    assert("sass"@[3] == 's');
    assert("scala"@[0] == 's');
    assert("scala"@[1] == 'c');
    assert("scala"@[2] == 'a');
    assert("scala"@[3] == 'l');
    assert("scala"@[4] == 'a');
    assert("scss"@[0] == 's');
    assert("scss"@[1] == 'c');
    assert("scss"@[2] == 's');
    assert("scss"@[3] == 's');
    assert("sh"@[0] == 's');
    assert("sh"@[1] == 'h');
    assert("sql"@[0] == 's');
    assert("sql"@[1] == 'q');
    assert("sql"@[2] == 'l');
    assert("swift"@[0] == 's');
    assert("swift"@[1] == 'w');
    assert("swift"@[2] == 'i');
    assert("swift"@[3] == 'f');
    assert("swift"@[4] == 't');
    assert("toml"@[0] == 't');
    assert("toml"@[1] == 'o');
    assert("toml"@[2] == 'm');
    assert("toml"@[3] == 'l');
    assert("ts"@[0] == 't');
    assert("ts"@[1] == 's');
    assert("tsx"@[0] == 't');
    assert("tsx"@[1] == 's');
    assert("tsx"@[2] == 'x');
    assert("xml"@[0] == 'x');
    assert("xml"@[1] == 'm');
    assert("xml"@[2] == 'l');
    assert("yaml"@[0] == 'y');
    assert("yaml"@[1] == 'a');
    assert("yaml"@[2] == 'm');
    assert("yaml"@[3] == 'l');
    assert("yml"@[0] == 'y');
    assert("yml"@[1] == 'm');
    assert("yml"@[2] == 'l');
}

} // verus!
