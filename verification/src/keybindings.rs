//! Keybindings: how key strings are normalized and compared across
//! platforms, and the registry of bindings by key.
use vstd::prelude::*;
use crate::store::{Duplicate, Store, views, duplicate_all, lookup, store_insert, distinct_keys, values_of};
use crate::text::{clone_opt, concat, lowercase, opt_view, owned, replace_all, replace_spec, str_eq, to_lowercase};
use crate::json::{JsonValue, JsonView};

verus! {

/// A key combination bound to a command.
pub struct Keybinding {
    pub command: String,
    /// Key combination, such as `Ctrl+Shift+P` or `Cmd+K Cmd+S`.
    pub key: String,
    pub when: Option<String>,
    /// Platform the binding is for (`windows`, `macos`, `linux`); all when absent.
    pub platform: Option<String>,
    pub owner: String,
    pub args: Option<JsonValue>,
}

/// Mathematical form of a [`Keybinding`].
pub struct KeybindingView {
    pub command: Seq<char>,
    pub key: Seq<char>,
    pub when: Option<Seq<char>>,
    pub platform: Option<Seq<char>>,
    pub owner: Seq<char>,
    pub args: Option<JsonView>,
}

impl View for Keybinding {
    type V = KeybindingView;

    open spec fn view(&self) -> KeybindingView {
        KeybindingView {
            command: self.command@,
            key: self.key@,
            when: opt_view(self.when),
            platform: opt_view(self.platform),
            owner: self.owner@,
            args: match self.args {
                Some(a) => Some(a@),
                None => None,
            },
        }
    }
}

impl Duplicate for Keybinding {
    fn duplicate(&self) -> (r: Self) {
        Keybinding {
            command: self.command.clone(),
            key: self.key.clone(),
            when: clone_opt(&self.when),
            platform: clone_opt(&self.platform),
            owner: self.owner.clone(),
            args: match &self.args {
                Some(a) => Some(a.duplicate()),
                None => None,
            },
        }
    }
}

/// The normal form of a key string: lowercase, spaces as `+`, and the long
/// modifier names `command`, `control`, `option`, `meta` shortened.
pub open spec fn normalize_key_spec(key: Seq<char>) -> Seq<char> {
    let a = replace_spec(lowercase(key), " "@, "+"@);
    let b = replace_spec(a, "command"@, "cmd"@);
    let c = replace_spec(b, "control"@, "ctrl"@);
    let d = replace_spec(c, "option"@, "alt"@);
    replace_spec(d, "meta"@, "cmd"@)
}

/// A key string written for a platform: `Ctrl` becomes `Cmd` on macOS and
/// `Cmd` becomes `Ctrl` on Windows and Linux.
pub open spec fn platform_key_spec(key: Seq<char>, platform: Seq<char>) -> Seq<char> {
    if platform == "macos"@ {
        replace_spec(key, "Ctrl"@, "Cmd"@)
    } else if platform == "windows"@ || platform == "linux"@ {
        replace_spec(key, "Cmd"@, "Ctrl"@)
    } else {
        key
    }
}

/// Whether a binding is for `platform`: it names none, or names it in any case.
pub open spec fn applies_spec(kb: KeybindingView, platform: Seq<char>) -> bool {
    match kb.platform {
        Some(p) => lowercase(p) == lowercase(platform),
        None => true,
    }
}

impl Keybinding {
    /// The normal form of a key string.
    pub fn normalize_key(key: &str) -> (r: String)
        ensures
            r@ == normalize_key_spec(key@),
    {
        proof {
            reveal_strlit(" ");
            reveal_strlit("command");
            reveal_strlit("control");
            reveal_strlit("option");
            reveal_strlit("meta");
        }
        let lower = to_lowercase(key);
        let a = replace_all(lower.as_str(), " ", "+");
        let b = replace_all(a.as_str(), "command", "cmd");
        let c = replace_all(b.as_str(), "control", "ctrl");
        let d = replace_all(c.as_str(), "option", "alt");
        replace_all(d.as_str(), "meta", "cmd")
    }

    /// The normal form of this binding's key.
    pub fn normalized_key(&self) -> (r: String)
        ensures
            r@ == normalize_key_spec(self.key@),
    {
        Self::normalize_key(self.key.as_str())
    }

    /// Whether this binding is for `current_platform`.
    pub fn applies_to_platform(&self, current_platform: &str) -> (r: bool)
        ensures
            r == applies_spec(self@, current_platform@),
    {
        match &self.platform {
            Some(p) => {
                let a = to_lowercase(p.as_str());
                let b = to_lowercase(current_platform);
                str_eq(a.as_str(), b.as_str())
            },
            None => true,
        }
    }

    /// This binding's key as written for `target_platform`.
    pub fn platform_key(&self, target_platform: &str) -> (r: String)
        ensures
            r@ == platform_key_spec(self.key@, target_platform@),
    {
        proof {
            reveal_strlit("Ctrl");
            reveal_strlit("Cmd");
        }
        if str_eq(target_platform, "macos") {
            replace_all(self.key.as_str(), "Ctrl", "Cmd")
        } else if str_eq(target_platform, "windows") || str_eq(target_platform, "linux") {
            replace_all(self.key.as_str(), "Cmd", "Ctrl")
        } else {
            self.key.clone()
        }
    }
}

/// The bindings of one normalized key.
pub struct KeybindingList {
    pub items: Vec<Keybinding>,
}

impl View for KeybindingList {
    type V = Seq<KeybindingView>;

    open spec fn view(&self) -> Seq<KeybindingView> {
        views(self.items@)
    }
}

impl Duplicate for KeybindingList {
    fn duplicate(&self) -> (r: Self) {
        let c = duplicate_all(&self.items);
        assert(views(c@) =~= views(self.items@));
        KeybindingList { items: c }
    }
}

/// Position of the first binding of the same command under the same when
/// clause, or the length when there is none.
pub open spec fn same_binding_index(list: Seq<KeybindingView>, kb: KeybindingView) -> int
    decreases list.len(),
{
    if list.len() == 0 {
        0
    } else if list[0].command == kb.command && list[0].when == kb.when {
        0
    } else {
        1 + same_binding_index(list.drop_first(), kb)
    }
}

/// A key's bindings after adding `kb`: it replaces the binding of the same
/// command and when clause, or joins at the end.
pub open spec fn bind_spec(list: Seq<KeybindingView>, kb: KeybindingView) -> Seq<KeybindingView> {
    let i = same_binding_index(list, kb);
    if i < list.len() {
        list.update(i, kb)
    } else {
        list.push(kb)
    }
}

/// The bindings under a normalized key.
pub open spec fn bound(state: Seq<(Seq<char>, Seq<KeybindingView>)>, key: Seq<char>) -> Seq<KeybindingView> {
    match lookup(state, key) {
        Some(l) => l,
        None => Seq::empty(),
    }
}

/// The registry after registering `kb` on `platform`: bindings for other
/// platforms are skipped.
pub open spec fn register_kb_spec(
    state: Seq<(Seq<char>, Seq<KeybindingView>)>,
    platform: Seq<char>,
    kb: KeybindingView,
) -> Seq<(Seq<char>, Seq<KeybindingView>)> {
    if !applies_spec(kb, platform) {
        state
    } else {
        let k = normalize_key_spec(kb.key);
        store_insert(state, k, bind_spec(bound(state, k), kb))
    }
}

/// The registry after registering `kbs` in turn.
pub open spec fn register_all_kb(
    state: Seq<(Seq<char>, Seq<KeybindingView>)>,
    platform: Seq<char>,
    kbs: Seq<KeybindingView>,
) -> Seq<(Seq<char>, Seq<KeybindingView>)>
    decreases kbs.len(),
{
    if kbs.len() == 0 {
        state
    } else {
        register_kb_spec(register_all_kb(state, platform, kbs.drop_last()), platform, kbs.last())
    }
}

/// A built-in binding.
pub open spec fn builtin_kb(command: Seq<char>, key: Seq<char>, when: Option<Seq<char>>) -> KeybindingView {
    KeybindingView { command, key, when, platform: None, owner: "__builtin__"@, args: None }
}

/// The editor's own bindings, with `m` as the main modifier (`Cmd` on macOS,
/// `Ctrl` elsewhere).
pub open spec fn builtin_keybindings(m: Seq<char>) -> Seq<KeybindingView> {
    seq![
        builtin_kb("file.save"@, m + "+S"@, Some("activeEditor"@)),
        builtin_kb("file.saveAll"@, m + "+K "@ + m + "+S"@, Some("activeEditor"@)),
        builtin_kb("file.close"@, m + "+W"@, Some("activeEditor"@)),
        builtin_kb("file.closeAll"@, m + "+K "@ + m + "+W"@, Some("activeEditor"@)),
        builtin_kb("view.toggleSidebar"@, m + "+B"@, None),
        builtin_kb("view.togglePanel"@, m + "+J"@, None),
        builtin_kb("editor.action.formatDocument"@, "Shift+Alt+F"@, Some("editorTextFocus"@)),
        builtin_kb("workbench.action.showCommands"@, m + "+Shift+P"@, None),
        builtin_kb("workbench.action.quickOpen"@, m + "+P"@, None),
        builtin_kb("workbench.action.showAllSymbols"@, m + "+T"@, None),
        builtin_kb("workbench.view.explorer"@, m + "+Shift+E"@, None),
        builtin_kb("workbench.action.findInFiles"@, m + "+Shift+F"@, None),
        builtin_kb("workbench.view.scm"@, m + "+Shift+G"@, None),
        builtin_kb("workbench.view.extensions"@, m + "+Shift+X"@, None),
        builtin_kb("workbench.action.openSettings"@, m + "+,"@, None),
        builtin_kb("dscode.toggleResourceMetrics"@, m + "+Shift+M"@, None),
        builtin_kb("workbench.action.reloadWindow"@, m + "+R"@, None),
        builtin_kb("editor.action.startFindReplaceAction"@, m + "+H"@, Some("editorTextFocus"@)),
        builtin_kb("actions.find"@, m + "+F"@, Some("editorTextFocus"@)),
        builtin_kb("workbench.action.navigateBack"@, m + "+Alt+Left"@, None),
        builtin_kb("workbench.action.navigateForward"@, m + "+Alt+Right"@, None),
    ]
}

/// The main modifier on a platform.
pub open spec fn main_modifier(platform: Seq<char>) -> Seq<char> {
    if platform == "macos"@ {
        "Cmd"@
    } else {
        "Ctrl"@
    }
}

fn kb(command: &str, key: String, when: Option<&str>) -> (r: Keybinding)
    ensures
        r@ == builtin_kb(
            command@,
            key@,
            match when {
                Some(w) => Some(w@),
                None => None,
            },
        ),
{
    Keybinding {
        command: owned(command),
        key,
        when: match when {
            Some(w) => Some(owned(w)),
            None => None,
        },
        platform: None,
        owner: owned("__builtin__"),
        args: None,
    }
}

fn twice(m: &str, mid: &str, tail: &str) -> (r: String)
    ensures
        r@ == m@ + mid@ + m@ + tail@,
{
    let a = concat(m, mid);
    let b = concat(a.as_str(), m);
    concat(b.as_str(), tail)
}

fn builtin_keybindings_exec(m: &str) -> (r: Vec<Keybinding>)
    ensures
        views(r@) == builtin_keybindings(m@),
{
    let v = vec![
        kb("file.save", concat(m, "+S"), Some("activeEditor")),
        kb("file.saveAll", twice(m, "+K ", "+S"), Some("activeEditor")),
        kb("file.close", concat(m, "+W"), Some("activeEditor")),
        kb("file.closeAll", twice(m, "+K ", "+W"), Some("activeEditor")),
        kb("view.toggleSidebar", concat(m, "+B"), None),
        kb("view.togglePanel", concat(m, "+J"), None),
        kb("editor.action.formatDocument", owned("Shift+Alt+F"), Some("editorTextFocus")),
        kb("workbench.action.showCommands", concat(m, "+Shift+P"), None),
        kb("workbench.action.quickOpen", concat(m, "+P"), None),
        kb("workbench.action.showAllSymbols", concat(m, "+T"), None),
        kb("workbench.view.explorer", concat(m, "+Shift+E"), None),
        kb("workbench.action.findInFiles", concat(m, "+Shift+F"), None),
        kb("workbench.view.scm", concat(m, "+Shift+G"), None),
        kb("workbench.view.extensions", concat(m, "+Shift+X"), None),
        kb("workbench.action.openSettings", concat(m, "+,"), None),
        kb("dscode.toggleResourceMetrics", concat(m, "+Shift+M"), None),
        kb("workbench.action.reloadWindow", concat(m, "+R"), None),
        kb("editor.action.startFindReplaceAction", concat(m, "+H"), Some("editorTextFocus")),
        kb("actions.find", concat(m, "+F"), Some("editorTextFocus")),
        kb("workbench.action.navigateBack", concat(m, "+Alt+Left"), None),
        kb("workbench.action.navigateForward", concat(m, "+Alt+Right"), None),
    ];
    assert(views(v@) =~= builtin_keybindings(m@));
    v
}

proof fn lemma_same_binding_index_is_first(list: Seq<KeybindingView>, kb: KeybindingView, i: int)
    requires
        0 <= i <= list.len(),
        forall|j: int| 0 <= j < i ==> !(list[j].command == kb.command && list[j].when == kb.when),
        i == list.len() || (list[i].command == kb.command && list[i].when == kb.when),
    ensures
        same_binding_index(list, kb) == i,
    decreases list.len(),
{
    if list.len() > 0 && !(list[0].command == kb.command && list[0].when == kb.when) {
        assert forall|j: int| 0 <= j < i - 1 implies !(list.drop_first()[j].command == kb.command
            && list.drop_first()[j].when == kb.when) by {
            assert(list.drop_first()[j] == list[j + 1]);
        }
        lemma_same_binding_index_is_first(list.drop_first(), kb, i - 1);
    }
}

fn same_when(a: &Option<String>, b: &Option<String>) -> (r: bool)
    ensures
        r == (opt_view(*a) == opt_view(*b)),
{
    match (a, b) {
        (Some(x), Some(y)) => str_eq(x.as_str(), y.as_str()),
        (None, None) => true,
        _ => false,
    }
}

/// All lists, one after another.
pub open spec fn concat_lists(lists: Seq<Seq<KeybindingView>>) -> Seq<KeybindingView>
    decreases lists.len(),
{
    if lists.len() == 0 {
        Seq::empty()
    } else {
        concat_lists(lists.drop_last()) + lists.last()
    }
}

/// The bindings after those of `owner` are removed; keys left without
/// bindings lose their entry.
pub open spec fn clear_kb_owner_spec(state: Seq<(Seq<char>, Seq<KeybindingView>)>, owner: Seq<char>) -> Seq<
    (Seq<char>, Seq<KeybindingView>),
> {
    state.map_values(
        |e: (Seq<char>, Seq<KeybindingView>)| (e.0, e.1.filter(|k: KeybindingView| k.owner != owner)),
    ).filter(|e: (Seq<char>, Seq<KeybindingView>)| e.1.len() > 0)
}

/// Keys stay only while they have bindings.
pub open spec fn no_empty_keys(state: Seq<(Seq<char>, Seq<KeybindingView>)>) -> bool {
    forall|i: int| 0 <= i < state.len() ==> (#[trigger] state[i]).1.len() > 0
}

/// Bindings by normalized key, for one platform.
pub struct KeybindingRegistry {
    keybindings: Store<KeybindingList>,
    platform: String,
}

impl KeybindingRegistry {
    /// Each normalized key with its bindings, in the order keys were first bound.
    pub closed spec fn state(&self) -> Seq<(Seq<char>, Seq<KeybindingView>)> {
        self.keybindings.entries()
    }

    pub closed spec fn platform_name(&self) -> Seq<char> {
        self.platform@
    }

    pub open spec fn wf(&self) -> bool {
        &&& distinct_keys(self.state())
        &&& no_empty_keys(self.state())
    }

    /// A registry for `platform` holding the editor's built-in bindings.
    pub fn new(platform: String) -> (r: Self)
        ensures
            r.wf(),
            r.platform_name() == platform@,
            r.state() == register_all_kb(Seq::empty(), platform@, builtin_keybindings(main_modifier(platform@))),
    {
        let mut r = KeybindingRegistry { keybindings: Store::new(), platform };
        r.register_builtin_keybindings();
        r
    }

    /// Registers the editor's built-in bindings, written with the platform's
    /// main modifier.
    fn register_builtin_keybindings(&mut self)
        requires
            old(self).wf(),
        ensures
            final(self).wf(),
            final(self).platform_name() == old(self).platform_name(),
            final(self).state() == register_all_kb(
                old(self).state(),
                old(self).platform_name(),
                builtin_keybindings(main_modifier(old(self).platform_name())),
            ),
    {
        let modifier = if str_eq(self.platform.as_str(), "macos") {
            "Cmd"
        } else {
            "Ctrl"
        };
        let builtins = builtin_keybindings_exec(modifier);
        let _ = self.register_keybindings(builtins);
    }

    /// Adds a binding for this registry's platform (others are skipped): it
    /// replaces the binding of the same command and when clause under its
    /// key, or joins the key's bindings.
    pub fn register_keybinding(&mut self, keybinding: Keybinding) -> (r: Result<(), String>)
        requires
            old(self).wf(),
        ensures
            final(self).wf(),
            final(self).platform_name() == old(self).platform_name(),
            final(self).state() == register_kb_spec(old(self).state(), old(self).platform_name(), keybinding@),
            r is Ok,
    {
        if !keybinding.applies_to_platform(self.platform.as_str()) {
            return Ok(());
        }
        let ghost before = self.state();
        let ghost kv = keybinding@;
        let key = keybinding.normalized_key();
        let mut list = match self.keybindings.get(key.as_str()) {
            Some(l) => l.items,
            None => Vec::new(),
        };
        let ghost lv = views(list@);
        assert(lv == bound(before, key@));
        let mut i: usize = 0;
        while i < list.len() && !(str_eq(list[i].command.as_str(), keybinding.command.as_str())
            && same_when(&list[i].when, &keybinding.when))
            invariant
                i <= list@.len(),
                lv == views(list@),
                kv == keybinding@,
                forall|j: int| 0 <= j < i ==> !((#[trigger] lv[j]).command == kv.command && lv[j].when == kv.when),
            decreases list@.len() - i,
        {
            i = i + 1;
        }
        proof {
            lemma_same_binding_index_is_first(lv, kv, i as int);
        }
        if i < list.len() {
            list.set(i, keybinding);
            assert(views(list@) =~= lv.update(i as int, kv));
        } else {
            list.push(keybinding);
            assert(views(list@) =~= lv.push(kv));
        }
        self.keybindings.insert(key, KeybindingList { items: list });
        proof {
            let after = self.state();
            crate::store::lemma_key_index_bounds(before, kv.key);
            crate::store::lemma_key_index_bounds(before, normalize_key_spec(kv.key));
            assert forall|k: int| 0 <= k < after.len() implies (#[trigger] after[k]).1.len() > 0 by {
                if k < before.len() && k != crate::store::key_index(before, normalize_key_spec(kv.key)) {
                    assert(after[k] == before[k]);
                }
            }
        }
        Ok(())
    }

    /// Registers each binding in turn; always succeeds.
    pub fn register_keybindings(&mut self, keybindings: Vec<Keybinding>) -> (r: Result<(), String>)
        requires
            old(self).wf(),
        ensures
            final(self).wf(),
            final(self).platform_name() == old(self).platform_name(),
            final(self).state() == register_all_kb(old(self).state(), old(self).platform_name(), views(keybindings@)),
            r is Ok,
    {
        let ghost all = views(keybindings@);
        let ghost start = self.state();
        let ghost plat = self.platform_name();
        let mut rest = keybindings;
        let n = rest.len();
        let mut rev: Vec<Keybinding> = Vec::new();
        while rest.len() > 0
            invariant
                rev@.len() + rest@.len() == n,
                n == all.len(),
                forall|k: int| 0 <= k < rev@.len() ==> (#[trigger] rev@[k])@ == all[n - 1 - k],
                forall|k: int| 0 <= k < rest@.len() ==> (#[trigger] rest@[k])@ == all[k],
            decreases rest@.len(),
        {
            let x = rest.pop().unwrap();
            rev.push(x);
        }
        let mut i: usize = 0;
        assert(all.take(0) =~= Seq::<KeybindingView>::empty());
        while rev.len() > 0
            invariant
                self.wf(),
                self.platform_name() == plat,
                i + rev@.len() == n,
                n == all.len(),
                forall|k: int| 0 <= k < rev@.len() ==> (#[trigger] rev@[k])@ == all[n - 1 - k],
                self.state() == register_all_kb(start, plat, all.take(i as int)),
            decreases rev@.len(),
        {
            let x = rev.pop().unwrap();
            assert(x@ == all[i as int]);
            assert(all.take(i + 1).drop_last() =~= all.take(i as int));
            let _ = self.register_keybinding(x);
            i = i + 1;
        }
        assert(all.take(n as int) =~= all);
        Ok(())
    }

    /// Copies of the bindings of a key (given in any form).
    pub fn get_keybindings_for_key(&self, key: &str) -> (r: Vec<Keybinding>)
        ensures
            views(r@) == bound(self.state(), normalize_key_spec(key@)),
    {
        let k = Keybinding::normalize_key(key);
        match self.keybindings.get(k.as_str()) {
            Some(l) => l.items,
            None => {
                let v: Vec<Keybinding> = Vec::new();
                assert(views(v@) =~= Seq::<KeybindingView>::empty());
                v
            },
        }
    }

    /// Copies of every binding, key by key.
    pub fn get_all_keybindings(&self) -> (r: Vec<Keybinding>)
        ensures
            views(r@) == concat_lists(values_of(self.state())),
    {
        let lists = self.keybindings.values();
        let ghost ls = views(lists@);
        assert(ls == values_of(self.state()));
        let mut out: Vec<Keybinding> = Vec::new();
        let mut i: usize = 0;
        while i < lists.len()
            invariant
                i <= lists@.len(),
                ls == views(lists@),
                views(out@) == concat_lists(ls.take(i as int)),
            decreases lists@.len() - i,
        {
            assert(ls.take(i + 1).drop_last() =~= ls.take(i as int));
            let ghost before = views(out@);
            let mut j: usize = 0;
            while j < lists[i].items.len()
                invariant
                    i < lists@.len(),
                    j <= lists@[i as int].items@.len(),
                    views(out@) == before + views(lists@[i as int].items@).take(j as int),
                decreases lists@[i as int].items@.len() - j,
            {
                let c = lists[i].items[j].duplicate();
                let ghost a = views(lists@[i as int].items@).take(j as int);
                let ghost prior = views(out@);
                out.push(c);
                assert(views(out@) =~= prior.push(c@));
                assert(views(lists@[i as int].items@).take(j + 1) =~= a.push(c@));
                assert((before + a).push(c@) =~= before + a.push(c@));
                j = j + 1;
            }
            assert(views(lists@[i as int].items@).take(j as int) =~= ls[i as int]);
            i = i + 1;
        }
        assert(ls.take(i as int) =~= ls);
        out
    }

    /// Copies of the bindings of one command.
    pub fn get_keybindings_for_command(&self, command: &str) -> (r: Vec<Keybinding>)
        ensures
            views(r@) == concat_lists(values_of(self.state())).filter(
                |k: KeybindingView| k.command == command@,
            ),
    {
        let all = self.get_all_keybindings();
        let ghost s = views(all@);
        let ghost p = |k: KeybindingView| k.command == command@;
        let mut out: Vec<Keybinding> = Vec::new();
        let mut i: usize = 0;
        assert(s.take(0).filter(p) =~= Seq::<KeybindingView>::empty()) by {
            reveal(Seq::filter);
        }
        while i < all.len()
            invariant
                i <= all@.len(),
                s == views(all@),
                p == (|k: KeybindingView| k.command == command@),
                views(out@) == s.take(i as int).filter(p),
            decreases all@.len() - i,
        {
            proof {
                assert(s.take(i + 1) =~= s.take(i as int).push(s[i as int]));
                s.take(i as int).lemma_filter_push(s[i as int], p);
            }
            if str_eq(all[i].command.as_str(), command) {
                let c = all[i].duplicate();
                out.push(c);
                assert(views(out@) =~= s.take(i as int).filter(p).push(s[i as int]));
            }
            i = i + 1;
        }
        assert(s.take(i as int) =~= s);
        out
    }

    /// Removes the bindings of `owner`; keys left without bindings go too.
    pub fn clear_keybindings_by_owner(&mut self, owner: &str)
        requires
            old(self).wf(),
        ensures
            final(self).wf(),
            final(self).platform_name() == old(self).platform_name(),
            final(self).state() == clear_kb_owner_spec(old(self).state(), owner@),
    {
        let mut store: Store<KeybindingList> = Store::new();
        std::mem::swap(&mut store, &mut self.keybindings);
        let ghost before = store.entries();
        let ghost p = |k: KeybindingView| k.owner != owner@;
        let ghost mapped = before.map_values(
            |e: (Seq<char>, Seq<KeybindingView>)| (e.0, e.1.filter(p)),
        );
        assert(mapped == before.map_values(
            |e: (Seq<char>, Seq<KeybindingView>)| (e.0, e.1.filter(|k: KeybindingView| k.owner != owner@)),
        ));
        let n = store.len();
        let mut keep: Vec<bool> = Vec::new();
        let mut i: usize = 0;
        while i < n
            invariant
                store.wf(),
                n == before.len(),
                i <= n,
                store.entries().len() == n,
                p == (|k: KeybindingView| k.owner != owner@),
                mapped == before.map_values(
                    |e: (Seq<char>, Seq<KeybindingView>)| (e.0, e.1.filter(p)),
                ),
                keep@.len() == i,
                forall|k: int| 0 <= k < i ==> keep@[k] == (mapped[k].1.len() > 0),
                forall|k: int|
                    0 <= k < n ==> (#[trigger] store.entries()[k]) == if k < i {
                        mapped[k]
                    } else {
                        before[k]
                    },
            decreases n - i,
        {
            let (_, list) = store.entry_at(i);
            let ghost s = list@;
            let mut kept: Vec<Keybinding> = Vec::new();
            let mut j: usize = 0;
            assert(s.take(0).filter(p) =~= Seq::<KeybindingView>::empty()) by {
                reveal(Seq::filter);
            }
            while j < list.items.len()
                invariant
                    j <= list.items@.len(),
                    s == views(list.items@),
                    p == (|k: KeybindingView| k.owner != owner@),
                    views(kept@) == s.take(j as int).filter(p),
                decreases list.items@.len() - j,
            {
                proof {
                    assert(s.take(j + 1) =~= s.take(j as int).push(s[j as int]));
                    s.take(j as int).lemma_filter_push(s[j as int], p);
                }
                if !str_eq(list.items[j].owner.as_str(), owner) {
                    let c = list.items[j].duplicate();
                    kept.push(c);
                    assert(views(kept@) =~= s.take(j as int).filter(p).push(s[j as int]));
                }
                j = j + 1;
            }
            assert(s.take(j as int) =~= s);
            keep.push(kept.len() > 0);
            store.set_at(i, KeybindingList { items: kept });
            i = i + 1;
        }
        assert(store.entries() =~= mapped);
        store.retain_mask(&keep);
        proof {
            broadcast use vstd::seq_lib::group_filter_ensures;

            let q = |e: (Seq<char>, Seq<KeybindingView>)| e.1.len() > 0;
            crate::store::lemma_filter_mask_is_filter(mapped, keep@, q);
            let f = mapped.filter(q);
            assert forall|k: int| 0 <= k < f.len() implies (#[trigger] f[k]).1.len() > 0 by {
                mapped.lemma_filter_pred(q, k);
            }
        }
        self.keybindings = store;
    }

    /// The platform this registry binds keys for.
    pub fn get_platform(&self) -> (r: String)
        ensures
            r@ == self.platform_name(),
    {
        self.platform.clone()
    }
}

/// Registering the same binding twice leaves one copy of it under its key.
pub proof fn lemma_rebinding_replaces(list: Seq<KeybindingView>, kb: KeybindingView)
    ensures
        bind_spec(bind_spec(list, kb), kb) == bind_spec(list, kb),
{
    let i = same_binding_index(list, kb);
    lemma_same_binding_index_bounds(list, kb);
    let once = bind_spec(list, kb);
    if i < list.len() {
        assert forall|j: int| 0 <= j < i implies !(once[j].command == kb.command && once[j].when == kb.when) by {
            assert(once[j] == list[j]);
        }
        lemma_same_binding_index_is_first(once, kb, i);
        assert(once.update(i, kb) =~= once);
    } else {
        assert forall|j: int| 0 <= j < i implies !(once[j].command == kb.command && once[j].when == kb.when) by {
            assert(once[j] == list[j]);
        }
        lemma_same_binding_index_is_first(once, kb, i);
        assert(once.update(i, kb) =~= once);
    }
}

proof fn lemma_same_binding_index_bounds(list: Seq<KeybindingView>, kb: KeybindingView)
    ensures
        0 <= same_binding_index(list, kb) <= list.len(),
        same_binding_index(list, kb) < list.len() ==> list[same_binding_index(list, kb)].command == kb.command
            && list[same_binding_index(list, kb)].when == kb.when,
        forall|j: int| 0 <= j < same_binding_index(list, kb) ==> !(list[j].command == kb.command && list[j].when == kb.when),
    decreases list.len(),
{
    if list.len() > 0 && !(list[0].command == kb.command && list[0].when == kb.when) {
        lemma_same_binding_index_bounds(list.drop_first(), kb);
        assert forall|j: int| 0 <= j < same_binding_index(list, kb) implies !(list[j].command == kb.command
            && list[j].when == kb.when) by {
            if j > 0 {
                assert(list[j] == list.drop_first()[j - 1]);
            }
        }
    }
}

} // verus!
