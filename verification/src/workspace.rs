//! The workspace: its folders in order, per-section configuration, and file
//! decorations from extensions.
use vstd::prelude::*;
use crate::store::{Duplicate, Store, views, duplicate_all, lookup, store_insert, distinct_keys};
use crate::json::{JsonValue, JsonView};
use crate::order::{ranked_sort, ranked_sorted, ranked_insertion_point};
use crate::text::{clone_opt, opt_view, owned, str_eq, join_with};

verus! {

/// A root folder of the workspace.
pub struct WorkspaceFolder {
    pub uri: String,
    pub name: String,
    /// Position among the workspace's folders.
    pub index: usize,
}

/// Mathematical form of a [`WorkspaceFolder`].
pub struct WorkspaceFolderView {
    pub uri: Seq<char>,
    pub name: Seq<char>,
    pub index: usize,
}

impl View for WorkspaceFolder {
    type V = WorkspaceFolderView;

    open spec fn view(&self) -> WorkspaceFolderView {
        WorkspaceFolderView { uri: self.uri@, name: self.name@, index: self.index }
    }
}

impl Duplicate for WorkspaceFolder {
    fn duplicate(&self) -> (r: Self) {
        WorkspaceFolder { uri: self.uri.clone(), name: self.name.clone(), index: self.index }
    }
}

/// Folders are ordered by their index.
pub open spec fn folder_key() -> spec_fn(WorkspaceFolderView) -> (int, Seq<char>) {
    |f: WorkspaceFolderView| (f.index as int, Seq::<char>::empty())
}

/// `s` with each folder's index set to its position.
pub open spec fn reindexed(s: Seq<WorkspaceFolderView>) -> Seq<WorkspaceFolderView> {
    Seq::new(s.len(), |i: int| WorkspaceFolderView { index: i as usize, ..s[i] })
}

/// The values of one configuration section, for one scope or for none.
pub struct WorkspaceConfiguration {
    pub section: String,
    pub scope: Option<String>,
    pub values: Store<JsonValue>,
}

/// Mathematical form of a [`WorkspaceConfiguration`].
pub struct WorkspaceConfigurationView {
    pub section: Seq<char>,
    pub scope: Option<Seq<char>>,
    pub values: Seq<(Seq<char>, JsonView)>,
}

impl View for WorkspaceConfiguration {
    type V = WorkspaceConfigurationView;

    open spec fn view(&self) -> WorkspaceConfigurationView {
        WorkspaceConfigurationView { section: self.section@, scope: opt_view(self.scope), values: self.values@ }
    }
}

impl Duplicate for WorkspaceConfiguration {
    fn duplicate(&self) -> (r: Self) {
        WorkspaceConfiguration {
            section: self.section.clone(),
            scope: clone_opt(&self.scope),
            values: self.values.duplicate(),
        }
    }
}

/// A decoration an extension puts on a file in the explorer.
pub struct FileDecoration {
    pub uri: String,
    pub badge: Option<String>,
    pub tooltip: Option<String>,
    pub color: Option<String>,
    pub propagate: bool,
}

/// Mathematical form of a [`FileDecoration`].
pub struct FileDecorationView {
    pub uri: Seq<char>,
    pub badge: Option<Seq<char>>,
    pub tooltip: Option<Seq<char>>,
    pub color: Option<Seq<char>>,
    pub propagate: bool,
}

impl View for FileDecoration {
    type V = FileDecorationView;

    open spec fn view(&self) -> FileDecorationView {
        FileDecorationView {
            uri: self.uri@,
            badge: opt_view(self.badge),
            tooltip: opt_view(self.tooltip),
            color: opt_view(self.color),
            propagate: self.propagate,
        }
    }
}

impl Duplicate for FileDecoration {
    fn duplicate(&self) -> (r: Self) {
        FileDecoration {
            uri: self.uri.clone(),
            badge: clone_opt(&self.badge),
            tooltip: clone_opt(&self.tooltip),
            color: clone_opt(&self.color),
            propagate: self.propagate,
        }
    }
}

/// The decorations one provider gives.
pub struct DecorationSet {
    pub items: Vec<FileDecoration>,
}

impl View for DecorationSet {
    type V = Seq<FileDecorationView>;

    open spec fn view(&self) -> Seq<FileDecorationView> {
        views(self.items@)
    }
}

impl Duplicate for DecorationSet {
    fn duplicate(&self) -> (r: Self) {
        let items = duplicate_all(&self.items);
        assert(views(items@) =~= views(self.items@));
        DecorationSet { items }
    }
}

/// An extension that decorates files.
pub struct FileDecorationProvider {
    pub id: String,
    pub owner: String,
}

/// Mathematical form of a [`FileDecorationProvider`].
pub struct FileDecorationProviderView {
    pub id: Seq<char>,
    pub owner: Seq<char>,
}

impl View for FileDecorationProvider {
    type V = FileDecorationProviderView;

    open spec fn view(&self) -> FileDecorationProviderView {
        FileDecorationProviderView { id: self.id@, owner: self.owner@ }
    }
}

impl Duplicate for FileDecorationProvider {
    fn duplicate(&self) -> (r: Self) {
        FileDecorationProvider { id: self.id.clone(), owner: self.owner.clone() }
    }
}

/// Options of a search for files by name.
pub struct FindFilesOptions {
    pub include_pattern: Option<String>,
    pub exclude: Option<String>,
    pub max_results: Option<usize>,
    pub follow_symlinks: bool,
}

/// Options of a search for text in files.
pub struct TextSearchOptions {
    pub pattern: String,
    pub is_regex: bool,
    pub is_case_sensitive: bool,
    pub is_word_match: bool,
    pub include_pattern: Option<String>,
    pub exclude: Option<String>,
    pub max_results: Option<usize>,
}

/// The matches of a text search in one file.
pub struct TextSearchResult {
    pub uri: String,
    pub matches: Vec<TextSearchMatch>,
}

/// One match of a text search.
pub struct TextSearchMatch {
    pub line: usize,
    pub character: usize,
    pub length: usize,
    pub line_text: String,
}

/// The key a configuration is stored under: the section, then `:` and the
/// scope when there is one.
pub open spec fn config_key_spec(section: Seq<char>, scope: Option<Seq<char>>) -> Seq<char> {
    match scope {
        Some(s) => section.push(':') + s,
        None => section,
    }
}

/// The decorations for `uri`, provider by provider in the order providers
/// first gave decorations.
pub open spec fn decorations_at(entries: Seq<(Seq<char>, Seq<FileDecorationView>)>, uri: Seq<char>) -> Seq<
    FileDecorationView,
>
    decreases entries.len(),
{
    if entries.len() == 0 {
        Seq::empty()
    } else {
        decorations_at(entries.drop_last(), uri) + entries.last().1.filter(
            |d: FileDecorationView| d.uri == uri,
        )
    }
}

/// Whether some provider in `providers` has id `id`.
pub open spec fn has_provider(providers: Seq<FileDecorationProviderView>, id: Seq<char>) -> bool {
    exists|i: int| 0 <= i < providers.len() && (#[trigger] providers[i]).id == id
}

/// Every stored configuration keeps its values under distinct keys.
pub open spec fn configs_wf(configs: Seq<(Seq<char>, WorkspaceConfigurationView)>) -> bool {
    forall|i: int| 0 <= i < configs.len() ==> distinct_keys(#[trigger] configs[i].1.values)
}

/// Folders, configuration and file decorations of the open workspace.
pub struct WorkspaceRegistry {
    folders: Vec<WorkspaceFolder>,
    configurations: Store<WorkspaceConfiguration>,
    file_decoration_providers: Vec<FileDecorationProvider>,
    file_decorations: Store<DecorationSet>,
}

impl WorkspaceRegistry {
    pub closed spec fn folders(&self) -> Seq<WorkspaceFolderView> {
        views(self.folders@)
    }

    pub closed spec fn configurations(&self) -> Seq<(Seq<char>, WorkspaceConfigurationView)> {
        self.configurations.entries()
    }

    pub closed spec fn providers(&self) -> Seq<FileDecorationProviderView> {
        views(self.file_decoration_providers@)
    }

    /// Each provider that gave decorations, with them.
    pub closed spec fn decorations(&self) -> Seq<(Seq<char>, Seq<FileDecorationView>)> {
        self.file_decorations.entries()
    }

    pub open spec fn wf(&self) -> bool {
        &&& ranked_sorted(self.folders(), folder_key())
        &&& distinct_keys(self.configurations())
        &&& configs_wf(self.configurations())
        &&& distinct_keys(self.decorations())
    }

    pub fn new() -> (r: Self)
        ensures
            r.wf(),
            r.folders() == Seq::<WorkspaceFolderView>::empty(),
            r.configurations() == Seq::<(Seq<char>, WorkspaceConfigurationView)>::empty(),
            r.providers() == Seq::<FileDecorationProviderView>::empty(),
            r.decorations() == Seq::<(Seq<char>, Seq<FileDecorationView>)>::empty(),
    {
        let r = WorkspaceRegistry {
            folders: Vec::new(),
            configurations: Store::new(),
            file_decoration_providers: Vec::new(),
            file_decorations: Store::new(),
        };
        assert(r.folders() =~= Seq::<WorkspaceFolderView>::empty());
        assert(r.providers() =~= Seq::<FileDecorationProviderView>::empty());
        r
    }

    pub fn get_workspace_folders(&self) -> (r: Vec<WorkspaceFolder>)
        ensures
            views(r@) == self.folders(),
    {
        let r = duplicate_all(&self.folders);
        assert(views(r@) =~= self.folders());
        r
    }
}

} // verus!

verus! {

impl WorkspaceRegistry {
    /// Adds a folder, keeping the folders ordered by index (stably); a folder
    /// whose uri is already there is refused.
    pub fn add_workspace_folder(&mut self, folder: WorkspaceFolder) -> (r: Result<(), String>)
        requires
            old(self).wf(),
        ensures
            final(self).wf(),
            final(self).configurations() == old(self).configurations(),
            final(self).providers() == old(self).providers(),
            final(self).decorations() == old(self).decorations(),
            (exists|i: int| 0 <= i < old(self).folders().len() && (#[trigger] old(self).folders()[i]).uri == folder@.uri)
                ==> (r matches Err(e) && e@ == "Workspace folder already exists"@
                && final(self).folders() == old(self).folders()),
            !(exists|i: int| 0 <= i < old(self).folders().len() && (#[trigger] old(self).folders()[i]).uri == folder@.uri)
                ==> (r is Ok && final(self).folders() == ranked_sort(old(self).folders().push(folder@), folder_key())),
    {
        let ghost s = self.folders();
        let ghost x = folder@;
        let mut i: usize = 0;
        while i < self.folders.len()
            invariant
                i <= self.folders@.len(),
                s == self.folders(),
                x == folder@,
                self.wf(),
                forall|k: int| 0 <= k < i ==> (#[trigger] s[k]).uri != x.uri,
            decreases self.folders@.len() - i,
        {
            if str_eq(self.folders[i].uri.as_str(), folder.uri.as_str()) {
                assert(s[i as int].uri == x.uri);
                return Err(owned("Workspace folder already exists"));
            }
            i = i + 1;
        }
        let mut j: usize = self.folders.len();
        assert(s.take(j as int) =~= s);
        while j > 0 && folder.index < self.folders[j - 1].index
            invariant
                j <= self.folders@.len(),
                s == self.folders(),
                x == folder@,
                ranked_insertion_point(s, x, folder_key()) == ranked_insertion_point(s.take(j as int), x, folder_key()),
            decreases j,
        {
            assert(s.take(j as int).drop_last() =~= s.take(j - 1));
            assert(s.take(j as int).last() == s[j - 1]);
            j = j - 1;
        }
        proof {
            if j > 0 {
                assert(s.take(j as int).last() == s[j - 1]);
            }
            assert(s.take(j as int).len() == j);
            crate::order::lemma_ranked_sort_of_sorted(s, folder_key());
            assert(s.push(x).drop_last() =~= s);
            crate::order::lemma_ranked_sort_sorted(s.push(x), folder_key());
        }
        self.folders.insert(j, folder);
        assert(self.folders() =~= s.insert(j as int, x));
        Ok(())
    }

    /// Removes the folder with `uri` and renumbers the rest by position; an
    /// unknown uri is refused and changes nothing.
    pub fn remove_workspace_folder(&mut self, uri: &str) -> (r: Result<(), String>)
        requires
            old(self).wf(),
        ensures
            final(self).wf(),
            final(self).configurations() == old(self).configurations(),
            final(self).providers() == old(self).providers(),
            final(self).decorations() == old(self).decorations(),
            ({
                let kept = old(self).folders().filter(|f: WorkspaceFolderView| f.uri != uri@);
                &&& kept.len() == old(self).folders().len() ==> (r matches Err(e)
                    && e@ == "Workspace folder not found"@ && final(self).folders() == old(self).folders())
                &&& kept.len() != old(self).folders().len() ==> (r is Ok && final(self).folders() == reindexed(kept))
            }),
    {
        let ghost s = self.folders();
        let ghost pred = |f: WorkspaceFolderView| f.uri != uri@;
        let mut out: Vec<WorkspaceFolder> = Vec::new();
        let mut i: usize = 0;
        assert(s.take(0).filter(pred) =~= Seq::<WorkspaceFolderView>::empty()) by {
            reveal(Seq::filter);
        }
        assert(views(out@) =~= reindexed(Seq::<WorkspaceFolderView>::empty()));
        while i < self.folders.len()
            invariant
                i <= self.folders@.len(),
                s == self.folders(),
                pred == (|f: WorkspaceFolderView| f.uri != uri@),
                views(out@) == reindexed(s.take(i as int).filter(pred)),
                out@.len() == s.take(i as int).filter(pred).len(),
            decreases self.folders@.len() - i,
        {
            proof {
                assert(s.take(i + 1) =~= s.take(i as int).push(s[i as int]));
                s.take(i as int).lemma_filter_push(s[i as int], pred);
            }
            if !str_eq(self.folders[i].uri.as_str(), uri) {
                let ghost before = s.take(i as int).filter(pred);
                let ghost ov = views(out@);
                let n = out.len();
                let f = WorkspaceFolder {
                    uri: self.folders[i].uri.clone(),
                    name: self.folders[i].name.clone(),
                    index: n,
                };
                assert(f@ == WorkspaceFolderView { index: n, ..s[i as int] });
                out.push(f);
                assert(views(out@) =~= ov.push(out@[n as int]@));
                assert(views(out@) =~= reindexed(before.push(s[i as int])));
            }
            i = i + 1;
        }
        assert(s.take(self.folders@.len() as int) =~= s);
        if out.len() == self.folders.len() {
            return Err(owned("Workspace folder not found"));
        }
        self.folders = out;
        assert(ranked_sorted(self.folders(), folder_key()));
        Ok(())
    }

    /// The key a section's configuration is stored under.
    fn config_key(&self, section: &str, scope: Option<&str>) -> (r: String)
        ensures
            r@ == config_key_spec(
                section@,
                match scope {
                    Some(s) => Some(s@),
                    None => None,
                },
            ),
    {
        match scope {
            Some(s) => join_with(section, ':', s),
            None => owned(section),
        }
    }

    /// The configuration of `section` in `scope`, if it has one.
    pub fn get_configuration(&self, section: &str, scope: Option<&str>) -> (r: Option<WorkspaceConfiguration>)
        ensures
            match r {
                Some(c) => lookup(
                    self.configurations(),
                    config_key_spec(section@, match scope { Some(s) => Some(s@), None => None }),
                ) == Some(c@),
                None => lookup(
                    self.configurations(),
                    config_key_spec(section@, match scope { Some(s) => Some(s@), None => None }),
                ) is None,
            },
    {
        let key = self.config_key(section, scope);
        self.configurations.get(key.as_str())
    }
}

} // verus!

verus! {

/// The configuration a section's values go into: the stored one, or a new
/// empty one for that section and scope.
pub open spec fn config_base(
    configs: Seq<(Seq<char>, WorkspaceConfigurationView)>,
    section: Seq<char>,
    scope: Option<Seq<char>>,
) -> WorkspaceConfigurationView {
    match lookup(configs, config_key_spec(section, scope)) {
        Some(c) => c,
        None => WorkspaceConfigurationView { section, scope, values: Seq::empty() },
    }
}

impl WorkspaceRegistry {
    /// Sets `key` to `value` in the configuration of `section` and `scope`,
    /// creating that configuration if needed; always succeeds.
    pub fn update_configuration(
        &mut self,
        section: String,
        scope: Option<String>,
        key: String,
        value: JsonValue,
    ) -> (r: Result<(), String>)
        requires
            old(self).wf(),
        ensures
            final(self).wf(),
            final(self).configurations() == store_insert(
                old(self).configurations(),
                config_key_spec(section@, opt_view(scope)),
                WorkspaceConfigurationView {
                    values: store_insert(
                        config_base(old(self).configurations(), section@, opt_view(scope)).values,
                        key@,
                        value@,
                    ),
                    ..config_base(old(self).configurations(), section@, opt_view(scope))
                },
            ),
            final(self).folders() == old(self).folders(),
            final(self).providers() == old(self).providers(),
            final(self).decorations() == old(self).decorations(),
            r is Ok,
    {
        let ghost before = self.configurations();
        let ck = match &scope {
            Some(s) => self.config_key(section.as_str(), Some(s.as_str())),
            None => self.config_key(section.as_str(), None),
        };
        assert(ck@ == config_key_spec(section@, opt_view(scope)));
        proof {
            crate::store::lemma_key_index_bounds(before, ck@);
        }
        let mut config = match self.configurations.get(ck.as_str()) {
            Some(c) => {
                assert(distinct_keys(c.values@)) by {
                    assert(before[crate::store::key_index(before, ck@)].1 == c@);
                }
                c
            },
            None => WorkspaceConfiguration { section, scope, values: Store::new() },
        };
        config.values.insert(key, value);
        self.configurations.insert(ck, config);
        proof {
            let after = self.configurations();
            assert forall|i: int| 0 <= i < after.len() implies distinct_keys(#[trigger] after[i].1.values) by {
                if i < before.len() && i != crate::store::key_index(before, config_key_spec(section@, opt_view(scope))) {
                    assert(after[i] == before[i]);
                }
            }
        }
        Ok(())
    }

    /// Adds a decoration provider and gives back its id.
    pub fn register_file_decoration_provider(&mut self, provider: FileDecorationProvider) -> (r: Result<String, String>)
        requires
            old(self).wf(),
        ensures
            final(self).wf(),
            final(self).providers() == old(self).providers().push(provider@),
            final(self).folders() == old(self).folders(),
            final(self).configurations() == old(self).configurations(),
            final(self).decorations() == old(self).decorations(),
            r matches Ok(id) && id@ == provider@.id,
    {
        let id = provider.id.clone();
        let ghost pv = provider@;
        self.file_decoration_providers.push(provider);
        assert(self.providers() =~= old(self).providers().push(pv));
        Ok(id)
    }

    /// Replaces the decorations a provider gives; always succeeds.
    pub fn update_file_decorations(&mut self, provider_id: String, decorations: Vec<FileDecoration>) -> (r: Result<(), String>)
        requires
            old(self).wf(),
        ensures
            final(self).wf(),
            final(self).decorations() == store_insert(old(self).decorations(), provider_id@, views(decorations@)),
            final(self).folders() == old(self).folders(),
            final(self).configurations() == old(self).configurations(),
            final(self).providers() == old(self).providers(),
            r is Ok,
    {
        self.file_decorations.insert(provider_id, DecorationSet { items: decorations });
        Ok(())
    }

    /// Every decoration for `uri`, provider by provider.
    pub fn get_file_decorations(&self, uri: &str) -> (r: Vec<FileDecoration>)
        ensures
            views(r@) == decorations_at(self.decorations(), uri@),
    {
        let ghost all = self.decorations();
        let ghost pred = |d: FileDecorationView| d.uri == uri@;
        let mut result: Vec<FileDecoration> = Vec::new();
        let mut i: usize = 0;
        assert(all.take(0) =~= Seq::<(Seq<char>, Seq<FileDecorationView>)>::empty());
        assert(views(result@) =~= Seq::<FileDecorationView>::empty());
        while i < self.file_decorations.len()
            invariant
                i <= all.len(),
                all == self.decorations(),
                pred == (|d: FileDecorationView| d.uri == uri@),
                views(result@) == decorations_at(all.take(i as int), uri@),
            decreases all.len() - i,
        {
            let (_, set) = self.file_decorations.entry_at(i);
            let ghost ds = set@;
            let ghost base = views(result@);
            assert(all.take(i + 1).drop_last() =~= all.take(i as int));
            assert(all.take(i + 1).last() == all[i as int]);
            let mut j: usize = 0;
            assert(ds.take(0).filter(pred) =~= Seq::<FileDecorationView>::empty()) by {
                reveal(Seq::filter);
            }
            assert(base + ds.take(0).filter(pred) =~= base);
            while j < set.items.len()
                invariant
                    j <= ds.len(),
                    ds == views(set.items@),
                    pred == (|d: FileDecorationView| d.uri == uri@),
                    views(result@) == base + ds.take(j as int).filter(pred),
                decreases ds.len() - j,
            {
                proof {
                    assert(ds.take(j + 1) =~= ds.take(j as int).push(ds[j as int]));
                    ds.take(j as int).lemma_filter_push(ds[j as int], pred);
                }
                if str_eq(set.items[j].uri.as_str(), uri) {
                    let ghost rv = views(result@);
                    let c = set.items[j].duplicate();
                    result.push(c);
                    assert(views(result@) =~= rv.push(c@));
                    assert(base + ds.take(j as int).filter(pred).push(ds[j as int]) =~= rv.push(c@));
                }
                j = j + 1;
            }
            assert(ds.take(ds.len() as int) =~= ds);
            i = i + 1;
        }
        assert(all.take(all.len() as int) =~= all);
        result
    }

    /// Drops the decoration providers of `owner`, and the decorations of any
    /// provider that is then no longer registered; always succeeds.
    pub fn clear_owner_data(&mut self, owner: &str) -> (r: Result<(), String>)
        requires
            old(self).wf(),
        ensures
            final(self).wf(),
            final(self).providers() == old(self).providers().filter(
                |p: FileDecorationProviderView| p.owner != owner@,
            ),
            final(self).decorations() == old(self).decorations().filter(
                |e: (Seq<char>, Seq<FileDecorationView>)| has_provider(final(self).providers(), e.0),
            ),
            final(self).folders() == old(self).folders(),
            final(self).configurations() == old(self).configurations(),
            r is Ok,
    {
        let ghost ps = self.providers();
        let ghost ppred = |p: FileDecorationProviderView| p.owner != owner@;
        let mut kept: Vec<FileDecorationProvider> = Vec::new();
        let mut i: usize = 0;
        assert(ps.take(0).filter(ppred) =~= Seq::<FileDecorationProviderView>::empty()) by {
            reveal(Seq::filter);
        }
        while i < self.file_decoration_providers.len()
            invariant
                i <= ps.len(),
                ps == self.providers(),
                ppred == (|p: FileDecorationProviderView| p.owner != owner@),
                views(kept@) == ps.take(i as int).filter(ppred),
            decreases ps.len() - i,
        {
            proof {
                assert(ps.take(i + 1) =~= ps.take(i as int).push(ps[i as int]));
                ps.take(i as int).lemma_filter_push(ps[i as int], ppred);
            }
            if !str_eq(self.file_decoration_providers[i].owner.as_str(), owner) {
                let ghost kv = views(kept@);
                let c = self.file_decoration_providers[i].duplicate();
                kept.push(c);
                assert(views(kept@) =~= kv.push(c@));
            }
            i = i + 1;
        }
        assert(ps.take(ps.len() as int) =~= ps);
        self.file_decoration_providers = kept;
        let ghost np = self.providers();
        let ghost before = self.decorations();
        let ghost dpred = |e: (Seq<char>, Seq<FileDecorationView>)| has_provider(np, e.0);
        let n = self.file_decorations.len();
        let mut keep: Vec<bool> = Vec::new();
        let mut k: usize = 0;
        while k < n
            invariant
                n == before.len(),
                before == self.decorations(),
                np == self.providers(),
                k <= n,
                keep@.len() == k,
                dpred == (|e: (Seq<char>, Seq<FileDecorationView>)| has_provider(np, e.0)),
                forall|m: int| 0 <= m < k ==> keep@[m] == dpred(#[trigger] before[m]),
            decreases n - k,
        {
            let (id, _) = self.file_decorations.entry_at(k);
            let mut found = false;
            let mut j: usize = 0;
            while j < self.file_decoration_providers.len()
                invariant
                    j <= np.len(),
                    np == self.providers(),
                    found == exists|m: int| 0 <= m < j && (#[trigger] np[m]).id == id@,
                decreases np.len() - j,
            {
                if str_eq(self.file_decoration_providers[j].id.as_str(), id.as_str()) {
                    assert(np[j as int].id == id@);
                    found = true;
                }
                j = j + 1;
            }
            keep.push(found);
            k = k + 1;
        }
        self.file_decorations.retain_mask(&keep);
        proof {
            crate::store::lemma_filter_mask_is_filter(before, keep@, dpred);
        }
        Ok(())
    }
}

} // verus!
