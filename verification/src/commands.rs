//! The command registry: built-in and extension commands, and the command
//! palette's search.
use vstd::prelude::*;
use crate::store::{
    Duplicate, Owned, Store, views, lookup, store_insert, store_remove, distinct_keys, values_of,
    not_owned_entry, lemma_lookup_insert, lemma_lookup_remove, lemma_lookup_after_clear,
};
use crate::text::{clone_opt, concat, contains, contains_spec, lowercase, opt_view, owned, starts_with, starts_with_spec, str_eq, to_lowercase};
use crate::order::{rank_lt, ranked_insertion_point, ranked_sort, str_compare};
use crate::json::JsonValue;

verus! {

/// A command as the palette and keybindings know it.
pub struct CommandInfo {
    pub id: String,
    pub label: String,
    pub category: Option<String>,
    /// Contributing extension (`__builtin__` for the editor's own).
    pub owner: String,
    pub keybinding: Option<String>,
    /// When clause deciding availability.
    pub when: Option<String>,
}

/// Mathematical form of a [`CommandInfo`].
pub struct CommandInfoView {
    pub id: Seq<char>,
    pub label: Seq<char>,
    pub category: Option<Seq<char>>,
    pub owner: Seq<char>,
    pub keybinding: Option<Seq<char>>,
    pub when: Option<Seq<char>>,
}

/// What running a command gave.
pub struct CommandExecutionResult {
    pub success: bool,
    pub result: Option<JsonValue>,
    pub error: Option<String>,
}

impl View for CommandInfo {
    type V = CommandInfoView;

    open spec fn view(&self) -> CommandInfoView {
        CommandInfoView {
            id: self.id@,
            label: self.label@,
            category: opt_view(self.category),
            owner: self.owner@,
            keybinding: opt_view(self.keybinding),
            when: opt_view(self.when),
        }
    }
}

impl Duplicate for CommandInfo {
    fn duplicate(&self) -> (r: Self) {
        CommandInfo {
            id: self.id.clone(),
            label: self.label.clone(),
            category: clone_opt(&self.category),
            owner: self.owner.clone(),
            keybinding: clone_opt(&self.keybinding),
            when: clone_opt(&self.when),
        }
    }
}

impl Owned for CommandInfo {
    open spec fn owner_of(v: CommandInfoView) -> Seq<char> {
        v.owner
    }

    fn owner_name(&self) -> (r: &str) {
        self.owner.as_str()
    }
}

/// A built-in command.
pub open spec fn builtin_command(
    id: Seq<char>,
    label: Seq<char>,
    category: Seq<char>,
    keybinding: Seq<char>,
    when: Option<Seq<char>>,
) -> CommandInfoView {
    CommandInfoView {
        id,
        label,
        category: Some(category),
        owner: "__builtin__"@,
        keybinding: Some(keybinding),
        when,
    }
}

/// The editor's own commands, in registration order.
pub open spec fn builtin_commands() -> Seq<CommandInfoView> {
    seq![
        builtin_command("file.save"@, "File: Save"@, "File"@, "Ctrl+S"@, Some("activeEditor"@)),
        builtin_command("file.saveAll"@, "File: Save All"@, "File"@, "Ctrl+K S"@, Some("activeEditor"@)),
        builtin_command("file.close"@, "File: Close Editor"@, "File"@, "Ctrl+W"@, Some("activeEditor"@)),
        builtin_command("file.closeAll"@, "File: Close All Editors"@, "File"@, "Ctrl+K W"@, Some("activeEditor"@)),
        builtin_command("view.toggleSidebar"@, "View: Toggle Sidebar"@, "View"@, "Ctrl+B"@, None),
        builtin_command("view.togglePanel"@, "View: Toggle Panel"@, "View"@, "Ctrl+J"@, None),
        builtin_command("editor.action.formatDocument"@, "Format Document"@, "Editor"@, "Shift+Alt+F"@, Some("editorTextFocus"@)),
        builtin_command("actions.find"@, "Edit: Find"@, "Edit"@, "Ctrl+F"@, Some("editorTextFocus"@)),
        builtin_command("editor.action.startFindReplaceAction"@, "Edit: Replace"@, "Edit"@, "Ctrl+H"@, Some("editorTextFocus"@)),
        builtin_command("workbench.action.showCommands"@, "Show All Commands"@, "View"@, "Ctrl+Shift+P"@, None),
        builtin_command("workbench.action.quickOpen"@, "Go to File..."@, "View"@, "Ctrl+P"@, None),
        builtin_command("workbench.action.showAllSymbols"@, "Go to Symbol in Workspace..."@, "View"@, "Ctrl+T"@, None),
        builtin_command("workbench.view.explorer"@, "View: Show Explorer"@, "View"@, "Ctrl+Shift+E"@, None),
        builtin_command("workbench.action.findInFiles"@, "Search: Find in Files"@, "Search"@, "Ctrl+Shift+F"@, None),
        builtin_command("workbench.view.scm"@, "View: Show Source Control"@, "View"@, "Ctrl+Shift+G"@, None),
        builtin_command("workbench.view.extensions"@, "View: Show Extensions"@, "View"@, "Ctrl+Shift+X"@, None),
        builtin_command("workbench.action.openSettings"@, "Preferences: Open Settings"@, "Preferences"@, "Ctrl+,"@, None),
        builtin_command("dscode.toggleResourceMetrics"@, "Developer: Toggle Resource Metrics"@, "Developer"@, "Ctrl+Shift+M"@, None),
        builtin_command("workbench.action.reloadWindow"@, "Developer: Reload Window"@, "Developer"@, "Ctrl+R"@, None),
        builtin_command("workbench.action.navigateBack"@, "Go: Navigate Back"@, "Go"@, "Ctrl+Alt+Left"@, None),
        builtin_command("workbench.action.navigateForward"@, "Go: Navigate Forward"@, "Go"@, "Ctrl+Alt+Right"@, None),
    ]
}

fn command(id: &str, label: &str, category: &str, keybinding: &str, when: Option<&str>) -> (r: CommandInfo)
    ensures
        r@ == builtin_command(
            id@,
            label@,
            category@,
            keybinding@,
            match when {
                Some(w) => Some(w@),
                None => None,
            },
        ),
{
    CommandInfo {
        id: owned(id),
        label: owned(label),
        category: Some(owned(category)),
        owner: owned("__builtin__"),
        keybinding: Some(owned(keybinding)),
        when: match when {
            Some(w) => Some(owned(w)),
            None => None,
        },
    }
}

fn builtin_commands_exec() -> (r: Vec<CommandInfo>)
    ensures
        views(r@) == builtin_commands(),
{
    let v = vec![
        command("file.save", "File: Save", "File", "Ctrl+S", Some("activeEditor")),
        command("file.saveAll", "File: Save All", "File", "Ctrl+K S", Some("activeEditor")),
        command("file.close", "File: Close Editor", "File", "Ctrl+W", Some("activeEditor")),
        command("file.closeAll", "File: Close All Editors", "File", "Ctrl+K W", Some("activeEditor")),
        command("view.toggleSidebar", "View: Toggle Sidebar", "View", "Ctrl+B", None),
        command("view.togglePanel", "View: Toggle Panel", "View", "Ctrl+J", None),
        command("editor.action.formatDocument", "Format Document", "Editor", "Shift+Alt+F", Some("editorTextFocus")),
        command("actions.find", "Edit: Find", "Edit", "Ctrl+F", Some("editorTextFocus")),
        command("editor.action.startFindReplaceAction", "Edit: Replace", "Edit", "Ctrl+H", Some("editorTextFocus")),
        command("workbench.action.showCommands", "Show All Commands", "View", "Ctrl+Shift+P", None),
        command("workbench.action.quickOpen", "Go to File...", "View", "Ctrl+P", None),
        command("workbench.action.showAllSymbols", "Go to Symbol in Workspace...", "View", "Ctrl+T", None),
        command("workbench.view.explorer", "View: Show Explorer", "View", "Ctrl+Shift+E", None),
        command("workbench.action.findInFiles", "Search: Find in Files", "Search", "Ctrl+Shift+F", None),
        command("workbench.view.scm", "View: Show Source Control", "View", "Ctrl+Shift+G", None),
        command("workbench.view.extensions", "View: Show Extensions", "View", "Ctrl+Shift+X", None),
        command("workbench.action.openSettings", "Preferences: Open Settings", "Preferences", "Ctrl+,", None),
        command("dscode.toggleResourceMetrics", "Developer: Toggle Resource Metrics", "Developer", "Ctrl+Shift+M", None),
        command("workbench.action.reloadWindow", "Developer: Reload Window", "Developer", "Ctrl+R", None),
        command("workbench.action.navigateBack", "Go: Navigate Back", "Go", "Ctrl+Alt+Left", None),
        command("workbench.action.navigateForward", "Go: Navigate Forward", "Go", "Ctrl+Alt+Right", None),
    ];
    assert(views(v@) =~= builtin_commands());
    v
}

/// The commands after registering `cmds` in turn, each under its id.
pub open spec fn register_all_commands(
    state: Seq<(Seq<char>, CommandInfoView)>,
    cmds: Seq<CommandInfoView>,
) -> Seq<(Seq<char>, CommandInfoView)>
    decreases cmds.len(),
{
    if cmds.len() == 0 {
        state
    } else {
        let s = register_all_commands(state, cmds.drop_last());
        store_insert(s, cmds.last().id, cmds.last())
    }
}

/// Whether a command matches a lowercase query: its label, id or category
/// contains it, compared in lowercase.
pub open spec fn command_matches(c: CommandInfoView, q: Seq<char>) -> bool {
    ||| contains_spec(lowercase(c.label), q)
    ||| contains_spec(lowercase(c.id), q)
    ||| (c.category matches Some(cat) && contains_spec(lowercase(cat), q))
}

/// How well a command's label fits a lowercase query: 0 when it is the
/// query, 1 when it starts with it, 2 otherwise; ties go by label.
pub open spec fn relevance(q: Seq<char>) -> spec_fn(CommandInfoView) -> (int, Seq<char>) {
    |c: CommandInfoView|
        (
            if lowercase(c.label) == q {
                0int
            } else if starts_with_spec(lowercase(c.label), q) {
                1int
            } else {
                2int
            },
            c.label,
        )
}

/// What the palette shows for `query`: the matching commands, most relevant first.
pub open spec fn search_spec(commands: Seq<CommandInfoView>, query: Seq<char>) -> Seq<CommandInfoView> {
    ranked_sort(
        commands.filter(|c: CommandInfoView| command_matches(c, lowercase(query))),
        relevance(lowercase(query)),
    )
}

pub open spec fn owner_conflict_message(id: Seq<char>, existing: Seq<char>, owner: Seq<char>) -> Seq<char> {
    "Cannot unregister command '"@ + id + "': owned by '"@ + existing + "', not '"@ + owner + "'"@
}

pub open spec fn command_missing_message(id: Seq<char>) -> Seq<char> {
    "Command '"@ + id + "' not found"@
}

fn command_matches_exec(c: &CommandInfo, q: &str) -> (r: bool)
    ensures
        r == command_matches(c@, q@),
{
    let label = to_lowercase(c.label.as_str());
    if contains(label.as_str(), q) {
        return true;
    }
    let id = to_lowercase(c.id.as_str());
    if contains(id.as_str(), q) {
        return true;
    }
    match &c.category {
        Some(cat) => {
            let lc = to_lowercase(cat.as_str());
            contains(lc.as_str(), q)
        },
        None => false,
    }
}

fn relevance_rank(c: &CommandInfo, q: &str) -> (r: u8)
    ensures
        r as int == (relevance(q@))(c@).0,
{
    let label = to_lowercase(c.label.as_str());
    if str_eq(label.as_str(), q) {
        0
    } else if starts_with(label.as_str(), q) {
        1
    } else {
        2
    }
}

fn ranks_before(a_rank: u8, a_label: &str, b_rank: u8, b_label: &str) -> (r: bool)
    ensures
        r == rank_lt((a_rank as int, a_label@), (b_rank as int, b_label@)),
{
    if a_rank < b_rank {
        true
    } else if a_rank == b_rank {
        str_compare(a_label, b_label) == -1
    } else {
        false
    }
}

/// All commands, each under its id.
pub struct CommandRegistry {
    commands: Store<CommandInfo>,
}

impl CommandRegistry {
    /// The commands under their ids.
    pub closed spec fn commands(&self) -> Seq<(Seq<char>, CommandInfoView)> {
        self.commands.entries()
    }

    pub open spec fn wf(&self) -> bool {
        distinct_keys(self.commands())
    }

    /// A registry holding the editor's built-in commands.
    pub fn new() -> (r: Self)
        ensures
            r.wf(),
            r.commands() == register_all_commands(Seq::empty(), builtin_commands()),
    {
        let mut reg = CommandRegistry { commands: Store::new() };
        reg.register_builtin_commands();
        reg
    }

    /// Registers the editor's built-in commands, in order, each under its id.
    fn register_builtin_commands(&mut self)
        requires
            old(self).wf(),
        ensures
            final(self).wf(),
            final(self).commands() == register_all_commands(old(self).commands(), builtin_commands()),
    {
        let ghost start = self.commands();
        let builtins = builtin_commands_exec();
        let ghost all = views(builtins@);
        let mut rest = builtins;
        let mut rev: Vec<CommandInfo> = Vec::new();
        let n = rest.len();
        while rest.len() > 0
            invariant
                rev@.len() + rest@.len() == n,
                n == all.len(),
                forall|k: int| 0 <= k < rev@.len() ==> (#[trigger] rev@[k])@ == all[n - 1 - k],
                forall|k: int| 0 <= k < rest@.len() ==> (#[trigger] rest@[k])@ == all[k],
            decreases rest@.len(),
        {
            let x = rest.pop().unwrap();
            rev.push(x);
        }
        let mut i: usize = 0;
        assert(all.take(0) =~= Seq::<CommandInfoView>::empty());
        while rev.len() > 0
            invariant
                self.wf(),
                i + rev@.len() == n,
                n == all.len(),
                forall|k: int| 0 <= k < rev@.len() ==> (#[trigger] rev@[k])@ == all[n - 1 - k],
                self.commands() == register_all_commands(start, all.take(i as int)),
            decreases rev@.len(),
        {
            let x = rev.pop().unwrap();
            assert(x@ == all[i as int]);
            assert(all.take(i + 1).drop_last() =~= all.take(i as int));
            let key = x.id.clone();
            self.commands.insert(key, x);
            i = i + 1;
        }
        assert(all.take(n as int) =~= all);
    }

    /// Records a command under its id, replacing the one there (whoever owns it).
    pub fn register_command(&mut self, command: CommandInfo) -> (r: Result<(), String>)
        requires
            old(self).wf(),
        ensures
            final(self).wf(),
            final(self).commands() == store_insert(old(self).commands(), command@.id, command@),
            r is Ok,
    {
        let key = command.id.clone();
        self.commands.insert(key, command);
        Ok(())
    }

    /// Removes a command; only its owner may.
    pub fn unregister_command(&mut self, command_id: &str, owner: &str) -> (r: Result<(), String>)
        requires
            old(self).wf(),
        ensures
            final(self).wf(),
            match lookup(old(self).commands(), command_id@) {
                Some(c) => if c.owner == owner@ {
                    r is Ok && final(self).commands() == store_remove(old(self).commands(), command_id@)
                } else {
                    final(self).commands() == old(self).commands() && (r matches Err(m) && m@
                        == owner_conflict_message(command_id@, c.owner, owner@))
                },
                None => final(self).commands() == old(self).commands() && (r matches Err(m) && m@
                    == command_missing_message(command_id@)),
            },
    {
        match self.commands.get_ref(command_id) {
            Some(existing) => {
                if !str_eq(existing.owner.as_str(), owner) {
                    let a = concat("Cannot unregister command '", command_id);
                    let b = concat(a.as_str(), "': owned by '");
                    let c = concat(b.as_str(), existing.owner.as_str());
                    let d = concat(c.as_str(), "', not '");
                    let e = concat(d.as_str(), owner);
                    return Err(concat(e.as_str(), "'"));
                }
                let _ = self.commands.remove(command_id);
                Ok(())
            },
            None => {
                let a = concat("Command '", command_id);
                Err(concat(a.as_str(), "' not found"))
            },
        }
    }

    /// Copies of all commands.
    pub fn get_all_commands(&self) -> (r: Vec<CommandInfo>)
        ensures
            views(r@) == values_of(self.commands()),
    {
        self.commands.values()
    }

    /// A copy of the command with `command_id`.
    pub fn get_command(&self, command_id: &str) -> (r: Option<CommandInfo>)
        ensures
            match lookup(self.commands(), command_id@) {
                Some(c) => r matches Some(got) && got@ == c,
                None => r is None,
            },
    {
        self.commands.get(command_id)
    }

    /// The commands matching `query` (compared in lowercase with their label,
    /// id and category), exact label matches first, then labels starting
    /// with the query, each group by label.
    pub fn search_commands(&self, query: &str) -> (r: Vec<CommandInfo>)
        ensures
            views(r@) == search_spec(values_of(self.commands()), query@),
    {
        let q = to_lowercase(query);
        let all = self.commands.values();
        let ghost s = views(all@);
        let ghost p = |c: CommandInfoView| command_matches(c, lowercase(query@));
        let ghost key = relevance(lowercase(query@));
        let mut results: Vec<CommandInfo> = Vec::new();
        let mut ranks: Vec<u8> = Vec::new();
        let mut i: usize = 0;
        assert(s.take(0).filter(p) =~= Seq::<CommandInfoView>::empty()) by {
            reveal(Seq::filter);
        }
        while i < all.len()
            invariant
                i <= all@.len(),
                s == views(all@),
                q@ == lowercase(query@),
                p == (|c: CommandInfoView| command_matches(c, lowercase(query@))),
                key == relevance(lowercase(query@)),
                views(results@) == ranked_sort(s.take(i as int).filter(p), key),
                ranks@.len() == results@.len(),
                forall|k: int| 0 <= k < results@.len() ==> (#[trigger] ranks@[k]) as int == key(results@[k]@).0,
            decreases all@.len() - i,
        {
            proof {
                assert(s.take(i + 1) =~= s.take(i as int).push(s[i as int]));
                s.take(i as int).lemma_filter_push(s[i as int], p);
            }
            if command_matches_exec(&all[i], q.as_str()) {
                let c = all[i].duplicate();
                let rank = relevance_rank(&c, q.as_str());
                let ghost before = views(results@);
                let ghost filtered = s.take(i as int).filter(p);
                assert(filtered.push(c@).drop_last() =~= filtered);
                let mut j: usize = results.len();
                assert(before.take(j as int) =~= before);
                while j > 0 && ranks_before(rank, c.label.as_str(), ranks[j - 1], results[j - 1].label.as_str())
                    invariant
                        j <= results@.len(),
                        before == views(results@),
                        ranks@.len() == results@.len(),
                        forall|k: int| 0 <= k < results@.len() ==> (#[trigger] ranks@[k]) as int == key(results@[k]@).0,
                        rank as int == key(c@).0,
                        key(c@).1 == c.label@,
                        key == relevance(lowercase(query@)),
                        ranked_insertion_point(before, c@, key) == ranked_insertion_point(before.take(j as int), c@, key),
                    decreases j,
                {
                    assert(before.take(j as int).drop_last() =~= before.take(j - 1));
                    assert(before.take(j as int).last() == before[j - 1]);
                    assert(key(before[j - 1]) == (ranks@[j - 1] as int, results@[j - 1].label@));
                    j = j - 1;
                }
                proof {
                    if j > 0 {
                        assert(before.take(j as int).last() == before[j - 1]);
                        assert(key(before[j - 1]) == (ranks@[j - 1] as int, results@[j - 1].label@));
                    }
                }
                let ghost cv = c@;
                let ghost rs = results@;
                let ghost rk = ranks@;
                results.insert(j, c);
                ranks.insert(j, rank);
                assert(views(results@) =~= before.insert(j as int, cv));
                assert forall|k: int| 0 <= k < results@.len() implies (#[trigger] ranks@[k]) as int
                    == key(results@[k]@).0 by {
                    if k < j {
                        assert(results@[k] == rs[k]);
                        assert(ranks@[k] == rk[k]);
                    } else if k > j {
                        assert(results@[k] == rs[k - 1]);
                        assert(ranks@[k] == rk[k - 1]);
                    }
                }
            }
            i = i + 1;
        }
        assert(s.take(i as int) =~= s);
        results
    }

    /// Removes every command `owner` contributed.
    pub fn clear_commands_by_owner(&mut self, owner: &str)
        requires
            old(self).wf(),
        ensures
            final(self).wf(),
            final(self).commands() == old(self).commands().filter(not_owned_entry::<CommandInfo>(owner@)),
    {
        self.commands.retain_not_owned(owner);
    }
}

/// What the registry gives back: a command just registered is found under its
/// id as registered; a command its owner unregistered is no longer found; and
/// once an owner's commands are cleared, a command of that owner is gone while
/// every other command is found as before.
pub proof fn lemma_registry_gives_back(
    reg: CommandRegistry,
    command: CommandInfoView,
    id: Seq<char>,
    owner: Seq<char>,
)
    requires
        reg.wf(),
    ensures
        lookup(store_insert(reg.commands(), command.id, command), command.id) == Some(command),
        lookup(store_remove(reg.commands(), id), id) is None,
        lookup(reg.commands().filter(not_owned_entry::<CommandInfo>(owner)), id) == match lookup(
            reg.commands(),
            id,
        ) {
            Some(c) => if c.owner == owner {
                None
            } else {
                Some(c)
            },
            None => None,
        },
{
    lemma_lookup_insert(reg.commands(), command.id, command, command.id);
    lemma_lookup_remove(reg.commands(), id, id);
    lemma_lookup_after_clear::<CommandInfo>(reg.commands(), owner, id);
}

/// What the palette shows for a query: a command is among the results
/// exactly when it is registered and its label, its id or its category
/// contains the query, all compared in lowercase.
pub proof fn lemma_search_finds_matches(commands: Seq<CommandInfoView>, query: Seq<char>, c: CommandInfoView)
    ensures
        search_spec(commands, query).contains(c) <==> (commands.contains(c) && (contains_spec(
            lowercase(c.label),
            lowercase(query),
        ) || contains_spec(lowercase(c.id), lowercase(query)) || (c.category matches Some(cat)
            && contains_spec(lowercase(cat), lowercase(query))))),
{
    let q = lowercase(query);
    let pred = |x: CommandInfoView| command_matches(x, q);
    let f = commands.filter(pred);
    crate::order::lemma_ranked_sort_contains(f, relevance(q), c);
    if f.contains(c) {
        commands.lemma_filter_contains_rev(pred, c);
        let k = choose|k: int| 0 <= k < f.len() && f[k] == c;
        commands.lemma_filter_pred(pred, k);
    }
    if commands.contains(c) && pred(c) {
        let k = choose|k: int| 0 <= k < commands.len() && commands[k] == c;
        commands.lemma_filter_contains(pred, k);
    }
}

/// The palette's order: among the results, a command whose label is the
/// query (in lowercase) comes before any whose label is not, and one whose
/// label starts with the query comes before any whose label does not.
pub proof fn lemma_search_ranks_matches(commands: Seq<CommandInfoView>, query: Seq<char>, i: int, j: int)
    requires
        0 <= i < j < search_spec(commands, query).len(),
    ensures
        lowercase(search_spec(commands, query)[j].label) == lowercase(query) ==> lowercase(
            search_spec(commands, query)[i].label,
        ) == lowercase(query),
        starts_with_spec(lowercase(search_spec(commands, query)[j].label), lowercase(query))
            ==> starts_with_spec(lowercase(search_spec(commands, query)[i].label), lowercase(query)),
{
    let q = lowercase(query);
    let f = commands.filter(|c: CommandInfoView| command_matches(c, q));
    let key = relevance(q);
    crate::order::lemma_ranked_sort_sorted(f, key);
    let res = search_spec(commands, query);
    assert(!crate::order::rank_lt(key(res[j]), key(res[i])));
    if lowercase(res[j].label) == q {
        assert(q.subrange(0, q.len() as int) =~= q);
    }
    if lowercase(res[i].label) == q {
        let l = lowercase(res[i].label);
        assert(l.subrange(0, q.len() as int) =~= q);
    }
}

} // verus!
