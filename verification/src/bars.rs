//! The activity bar and the status bar: items contributed under
//! `owner:id` keys, and which of them show, in priority order.
use vstd::prelude::*;
use crate::store::{Duplicate, Store, views, duplicate_all, lookup, store_insert, store_remove, distinct_keys, values_of};
use crate::text::{clone_opt, concat, join_with, opt_view, owned, str_eq};
use crate::order::{ranked_insertion_point, ranked_sort};
use crate::json::{JsonValue, JsonView, array_views};

verus! {

/// An item of the activity bar.
pub struct ActivityBarItem {
    pub id: String,
    pub owner: String,
    pub title: String,
    /// An icon identifier or glyph.
    pub icon: Option<String>,
    /// Path to an icon file.
    pub icon_path: Option<String>,
    pub priority: i32,
    pub badge_count: Option<i32>,
    pub badge_text: Option<String>,
    pub visible: bool,
}

impl View for ActivityBarItem {
    type V = ActivityBarItem;

    open spec fn view(&self) -> ActivityBarItem {
        *self
    }
}

impl Duplicate for ActivityBarItem {
    fn duplicate(&self) -> (r: Self) {
        ActivityBarItem {
            id: self.id.clone(),
            owner: self.owner.clone(),
            title: self.title.clone(),
            icon: clone_opt(&self.icon),
            icon_path: clone_opt(&self.icon_path),
            priority: self.priority,
            badge_count: self.badge_count,
            badge_text: clone_opt(&self.badge_text),
            visible: self.visible,
        }
    }
}

/// Shown items come highest priority first, arrival order among equals.
pub open spec fn activity_priority() -> spec_fn(ActivityBarItem) -> (int, Seq<char>) {
    |i: ActivityBarItem| (-(i.priority as int), Seq::<char>::empty())
}

/// The items that show, highest priority first.
pub open spec fn visible_activity(items: Seq<(Seq<char>, ActivityBarItem)>) -> Seq<ActivityBarItem> {
    ranked_sort(values_of(items).filter(|i: ActivityBarItem| i.visible), activity_priority())
}

pub open spec fn activity_missing(key: Seq<char>) -> Seq<char> {
    "Activity bar item not found: "@ + key
}

/// The key of an item: `owner:id`.
pub open spec fn item_key_spec(owner: Seq<char>, id: Seq<char>) -> Seq<char> {
    owner.push(':') + id
}

/// The editor's own activity bar items.
pub open spec fn builtin_activity_ids() -> Seq<Seq<char>> {
    seq!["explorer"@, "search"@, "scm"@, "debug"@, "extensions"@]
}

/// The titles, icons and priorities of the editor's own activity bar items.
pub open spec fn builtin_activity_looks() -> Seq<(Seq<char>, Seq<char>, i32)> {
    seq![
        ("Explorer"@, "\u{1F4C1}"@, 1000i32),
        ("Search"@, "\u{1F50D}"@, 900i32),
        ("Source Control"@, "\u{1F500}"@, 800i32),
        ("Run and Debug"@, "\u{1F41B}"@, 700i32),
        ("Extensions"@, "\u{1F9E9}"@, 600i32),
    ]
}

/// The item at `i` is the editor's own item there, shown and without badge.
pub open spec fn is_builtin_activity(item: ActivityBarItem, i: int) -> bool {
    &&& item.id@ == builtin_activity_ids()[i]
    &&& item.owner@ == "__core__"@
    &&& item.title@ == builtin_activity_looks()[i].0
    &&& opt_view(item.icon) == Some(builtin_activity_looks()[i].1)
    &&& item.icon_path is None
    &&& item.priority == builtin_activity_looks()[i].2
    &&& item.badge_count is None
    &&& item.badge_text is None
    &&& item.visible
}

fn core_item(id: &str, title: &str, icon: &str, priority: i32) -> (r: ActivityBarItem)
    ensures
        r.id@ == id@ && r.owner@ == "__core__"@ && r.title@ == title@ && opt_view(r.icon) == Some(icon@)
            && r.icon_path is None && r.priority == priority && r.badge_count is None
            && r.badge_text is None && r.visible,
{
    ActivityBarItem {
        id: owned(id),
        owner: owned("__core__"),
        title: owned(title),
        icon: Some(owned(icon)),
        icon_path: None,
        priority,
        badge_count: None,
        badge_text: None,
        visible: true,
    }
}

/// Filters and orders items for display.
fn sort_visible<T: Duplicate>(all: &Vec<T>, visible: &Vec<bool>, priority: &Vec<i32>, Ghost(key): Ghost<spec_fn(T::V) -> (int, Seq<char>)>, Ghost(shown): Ghost<spec_fn(T::V) -> bool>) -> (r: Vec<T>)
    requires
        visible@.len() == all@.len(),
        priority@.len() == all@.len(),
        forall|i: int| 0 <= i < all@.len() ==> visible@[i] == shown(#[trigger] all@[i]@),
        forall|i: int| 0 <= i < all@.len() ==> key(#[trigger] all@[i]@) == (-(priority@[i] as int), Seq::<char>::empty()),
    ensures
        views(r@) == ranked_sort(views(all@).filter(shown), key),
{
    let ghost s = views(all@);
    let mut out: Vec<T> = Vec::new();
    let mut prios: Vec<i32> = Vec::new();
    let mut i: usize = 0;
    assert(s.take(0).filter(shown) =~= Seq::<T::V>::empty()) by {
        reveal(Seq::filter);
    }
    while i < all.len()
        invariant
            i <= all@.len(),
            s == views(all@),
            visible@.len() == all@.len(),
            priority@.len() == all@.len(),
            forall|i: int| 0 <= i < all@.len() ==> visible@[i] == shown(#[trigger] all@[i]@),
            forall|i: int| 0 <= i < all@.len() ==> key(#[trigger] all@[i]@) == (-(priority@[i] as int), Seq::<char>::empty()),
            views(out@) == ranked_sort(s.take(i as int).filter(shown), key),
            prios@.len() == out@.len(),
            forall|k: int| 0 <= k < out@.len() ==> key(#[trigger] out@[k]@) == (-(prios@[k] as int), Seq::<char>::empty()),
        decreases all@.len() - i,
    {
        proof {
            assert(s.take(i + 1) =~= s.take(i as int).push(s[i as int]));
            s.take(i as int).lemma_filter_push(s[i as int], shown);
        }
        if visible[i] {
            let c = all[i].duplicate();
            let p = priority[i];
            let ghost cv = c@;
            assert(key(cv) == (-(p as int), Seq::<char>::empty()));
            let ghost before = views(out@);
            let ghost filtered = s.take(i as int).filter(shown);
            let mut j: usize = out.len();
            assert(before.take(j as int) =~= before);
            while j > 0 && prios[j - 1] < p
                invariant
                    j <= out@.len(),
                    before == views(out@),
                    prios@.len() == out@.len(),
                    forall|k: int| 0 <= k < out@.len() ==> key(#[trigger] out@[k]@) == (-(prios@[k] as int), Seq::<char>::empty()),
                    key(cv) == (-(p as int), Seq::<char>::empty()),
                    ranked_insertion_point(before, cv, key) == ranked_insertion_point(before.take(j as int), cv, key),
                decreases j,
            {
                assert(before.take(j as int).drop_last() =~= before.take(j - 1));
                assert(before.take(j as int).last() == before[j - 1]);
                assert(key(before[j - 1]) == (-(prios@[j - 1] as int), Seq::<char>::empty()));
                j = j - 1;
            }
            proof {
                crate::order::lemma_seq_lt_irreflexive(Seq::<char>::empty());
                if j > 0 {
                    assert(before.take(j as int).last() == before[j - 1]);
                    assert(key(before[j - 1]) == (-(prios@[j - 1] as int), Seq::<char>::empty()));
                }
                assert(filtered.push(cv).drop_last() =~= filtered);
            }
            let ghost os = out@;
            let ghost ps = prios@;
            out.insert(j, c);
            prios.insert(j, p);
            assert(views(out@) =~= before.insert(j as int, cv));
            assert forall|k: int| 0 <= k < out@.len() implies key(#[trigger] out@[k]@) == (-(prios@[k] as int), Seq::<char>::empty()) by {
                if k < j {
                    assert(out@[k] == os[k]);
                    assert(prios@[k] == ps[k]);
                } else if k > j {
                    assert(out@[k] == os[k - 1]);
                    assert(prios@[k] == ps[k - 1]);
                }
            }
        }
        i = i + 1;
    }
    assert(s.take(i as int) =~= s);
    out
}

/// Activity bar items by key.
pub struct ActivityBarRegistry {
    items: Store<ActivityBarItem>,
}

impl ActivityBarRegistry {
    pub closed spec fn items(&self) -> Seq<(Seq<char>, ActivityBarItem)> {
        self.items.entries()
    }

    pub open spec fn wf(&self) -> bool {
        distinct_keys(self.items())
    }

    /// A registry holding the editor's own items (explorer, search, source
    /// control, run and debug, extensions), each under its id.
    pub fn new() -> (r: Self)
        ensures
            r.wf(),
            r.items().len() == 5,
            forall|i: int| 0 <= i < 5 ==> (#[trigger] r.items()[i]).0 == builtin_activity_ids()[i]
                && is_builtin_activity(r.items()[i].1, i),
    {
        let mut r = ActivityBarRegistry { items: Store::new() };
        r.register_built_in_items();
        r
    }

    /// Registers the editor's own items into the empty registry.
    fn register_built_in_items(&mut self)
        requires
            old(self).items().len() == 0,
        ensures
            final(self).wf(),
            final(self).items().len() == 5,
            forall|i: int| 0 <= i < 5 ==> (#[trigger] final(self).items()[i]).0 == builtin_activity_ids()[i]
                && is_builtin_activity(final(self).items()[i].1, i),
    {
        let b = vec![
            core_item("explorer", "Explorer", "\u{1F4C1}", 1000),
            core_item("search", "Search", "\u{1F50D}", 900),
            core_item("scm", "Source Control", "\u{1F500}", 800),
            core_item("debug", "Run and Debug", "\u{1F41B}", 700),
            core_item("extensions", "Extensions", "\u{1F9E9}", 600),
        ];
        proof {
            reveal_strlit("explorer");
            reveal_strlit("search");
            reveal_strlit("scm");
            reveal_strlit("debug");
            reveal_strlit("extensions");
        }
        let mut i: usize = 0;
        while i < b.len()
            invariant
                self.items.wf(),
                i <= b@.len(),
                b@.len() == 5,
                forall|k: int| 0 <= k < 5 ==> is_builtin_activity(#[trigger] b@[k], k),
                self.items.entries().len() == i,
                forall|k: int| 0 <= k < i ==> (#[trigger] self.items.entries()[k]).0 == b@[k].id@ && self.items.entries()[k].1 == b@[k],
            decreases b@.len() - i,
        {
            let ghost before = self.items.entries();
            proof {
                reveal_strlit("explorer");
                reveal_strlit("search");
                reveal_strlit("scm");
                reveal_strlit("debug");
                reveal_strlit("extensions");
                crate::store::lemma_key_index_bounds(before, b@[i as int].id@);
                assert forall|k: int| 0 <= k < i implies before[k].0 != b@[i as int].id@ by {
                    assert(before[k].0 == builtin_activity_ids()[k]);
                    assert(builtin_activity_ids()[k].len() != builtin_activity_ids()[i as int].len());
                }
                crate::store::lemma_key_index_is_first(before, b@[i as int].id@, i as int);
            }
            let key = b[i].id.clone();
            let item = b[i].duplicate();
            self.items.insert(key, item);
            i = i + 1;
        }
    }

    /// The key of an item: `owner:id`.
    pub fn item_key(owner: &str, id: &str) -> (r: String)
        ensures
            r@ == item_key_spec(owner@, id@),
    {
        join_with(owner, ':', id)
    }

    /// Adds a shown item under `owner:id`, replacing one there; gives back the key.
    pub fn register_item(
        &mut self,
        owner: String,
        id: String,
        title: String,
        icon: Option<String>,
        icon_path: Option<String>,
        priority: Option<i32>,
    ) -> (r: Result<String, String>)
        requires
            old(self).wf(),
        ensures
            final(self).wf(),
            r matches Ok(key) && key@ == item_key_spec(owner@, id@) && final(self).items() == store_insert(
                old(self).items(),
                key@,
                ActivityBarItem {
                    id,
                    owner,
                    title,
                    icon,
                    icon_path,
                    priority: match priority {
                        Some(p) => p,
                        None => 0,
                    },
                    badge_count: None,
                    badge_text: None,
                    visible: true,
                },
            ),
    {
        let key = Self::item_key(owner.as_str(), id.as_str());
        let item = ActivityBarItem {
            id,
            owner,
            title,
            icon,
            icon_path,
            priority: match priority {
                Some(p) => p,
                None => 0,
            },
            badge_count: None,
            badge_text: None,
            visible: true,
        };
        self.items.insert(key.clone(), item);
        Ok(key)
    }

    /// Sets an item's badge; gives back whether the shown items changed.
    pub fn update_badge(&mut self, key: String, badge_count: Option<i32>, badge_text: Option<String>) -> (r: Result<bool, String>)
        requires
            old(self).wf(),
        ensures
            final(self).wf(),
            match lookup(old(self).items(), key@) {
                Some(item) => r == Ok::<bool, String>(item.visible) && final(self).items() == store_insert(
                    old(self).items(),
                    key@,
                    ActivityBarItem { badge_count, badge_text, ..item },
                ),
                None => final(self).items() == old(self).items() && (r matches Err(m) && m@ == activity_missing(key@)),
            },
    {
        match self.items.get(key.as_str()) {
            Some(item) => {
                let mut item = item;
                item.badge_count = badge_count;
                item.badge_text = badge_text;
                let visible = item.visible;
                self.items.insert(key, item);
                Ok(visible)
            },
            None => Err(concat("Activity bar item not found: ", key.as_str())),
        }
    }

    fn set_visible(&mut self, key: String, visible: bool) -> (r: Result<bool, String>)
        requires
            old(self).wf(),
        ensures
            final(self).wf(),
            match lookup(old(self).items(), key@) {
                Some(item) => if item.visible == visible {
                    r == Ok::<bool, String>(false) && final(self).items() == old(self).items()
                } else {
                    r == Ok::<bool, String>(true) && final(self).items() == store_insert(
                        old(self).items(),
                        key@,
                        ActivityBarItem { visible, ..item },
                    )
                },
                None => final(self).items() == old(self).items() && (r matches Err(m) && m@ == activity_missing(key@)),
            },
    {
        match self.items.get(key.as_str()) {
            Some(item) => {
                if item.visible == visible {
                    return Ok(false);
                }
                let mut item = item;
                item.visible = visible;
                self.items.insert(key, item);
                Ok(true)
            },
            None => Err(concat("Activity bar item not found: ", key.as_str())),
        }
    }

    /// Shows an item; gives back whether the shown items changed.
    pub fn show_item(&mut self, key: String) -> (r: Result<bool, String>)
        requires
            old(self).wf(),
        ensures
            final(self).wf(),
            match lookup(old(self).items(), key@) {
                Some(item) => if item.visible {
                    r == Ok::<bool, String>(false) && final(self).items() == old(self).items()
                } else {
                    r == Ok::<bool, String>(true) && final(self).items() == store_insert(
                        old(self).items(),
                        key@,
                        ActivityBarItem { visible: true, ..item },
                    )
                },
                None => final(self).items() == old(self).items() && (r matches Err(m) && m@ == activity_missing(key@)),
            },
    {
        self.set_visible(key, true)
    }

    /// Hides an item; gives back whether the shown items changed.
    pub fn hide_item(&mut self, key: String) -> (r: Result<bool, String>)
        requires
            old(self).wf(),
        ensures
            final(self).wf(),
            match lookup(old(self).items(), key@) {
                Some(item) => if !item.visible {
                    r == Ok::<bool, String>(false) && final(self).items() == old(self).items()
                } else {
                    r == Ok::<bool, String>(true) && final(self).items() == store_insert(
                        old(self).items(),
                        key@,
                        ActivityBarItem { visible: false, ..item },
                    )
                },
                None => final(self).items() == old(self).items() && (r matches Err(m) && m@ == activity_missing(key@)),
            },
    {
        self.set_visible(key, false)
    }

    /// Removes an item; gives back whether it was shown.
    pub fn dispose_item(&mut self, key: String) -> (r: Result<bool, String>)
        requires
            old(self).wf(),
        ensures
            final(self).wf(),
            final(self).items() == store_remove(old(self).items(), key@),
            match lookup(old(self).items(), key@) {
                Some(item) => r == Ok::<bool, String>(item.visible),
                None => r matches Err(m) && m@ == activity_missing(key@),
            },
    {
        match self.items.remove(key.as_str()) {
            Some(item) => Ok(item.visible),
            None => Err(concat("Activity bar item not found: ", key.as_str())),
        }
    }

    /// The items that show, highest priority first.
    pub fn get_visible_items(&self) -> (r: Vec<ActivityBarItem>)
        ensures
            r@ == visible_activity(self.items()),
    {
        let all = self.items.values();
        assert(views(all@) =~= all@);
        let mut visible: Vec<bool> = Vec::new();
        let mut priority: Vec<i32> = Vec::new();
        let mut i: usize = 0;
        while i < all.len()
            invariant
                i <= all@.len(),
                visible@.len() == i,
                priority@.len() == i,
                forall|k: int| 0 <= k < i ==> visible@[k] == (#[trigger] all@[k]).visible,
                forall|k: int| 0 <= k < i ==> priority@[k] == (#[trigger] all@[k]).priority,
            decreases all@.len() - i,
        {
            visible.push(all[i].visible);
            priority.push(all[i].priority);
            i = i + 1;
        }
        let r = sort_visible(&all, &visible, &priority, Ghost(activity_priority()), Ghost(|i: ActivityBarItem| i.visible));
        assert(views(r@) =~= r@);
        r
    }

    /// A copy of the item under `key`.
    pub fn get_item(&self, key: &str) -> (r: Option<ActivityBarItem>)
        ensures
            r == lookup(self.items(), key@),
    {
        self.items.get(key)
    }

    /// Removes the items of `owner` (never the editor's own); gives back
    /// whether a shown item went.
    pub fn clear_owner_items(&mut self, owner: &str) -> (r: Result<bool, String>)
        requires
            old(self).wf(),
        ensures
            final(self).wf(),
            final(self).items() == old(self).items().filter(
                |e: (Seq<char>, ActivityBarItem)| !(e.1.owner@ == owner@ && e.1.owner@ != "__core__"@),
            ),
            r == Ok::<bool, String>(
                exists|i: int|
                    0 <= i < old(self).items().len() && (#[trigger] old(self).items()[i]).1.owner@ == owner@
                        && old(self).items()[i].1.owner@ != "__core__"@ && old(self).items()[i].1.visible,
            ),
    {
        let ghost before = self.items();
        let ghost pred = |e: (Seq<char>, ActivityBarItem)| !(e.1.owner@ == owner@ && e.1.owner@ != "__core__"@);
        let n = self.items.len();
        let mut keep: Vec<bool> = Vec::new();
        let mut had_visible = false;
        let mut i: usize = 0;
        while i < n
            invariant
                n == before.len(),
                before == self.items(),
                i <= n,
                keep@.len() == i,
                pred == (|e: (Seq<char>, ActivityBarItem)| !(e.1.owner@ == owner@ && e.1.owner@ != "__core__"@)),
                forall|k: int| 0 <= k < i ==> keep@[k] == pred(#[trigger] before[k]),
                had_visible == exists|k: int| 0 <= k < i && !pred(#[trigger] before[k]) && before[k].1.visible,
            decreases n - i,
        {
            let (_, item) = self.items.entry_at(i);
            let removed = str_eq(item.owner.as_str(), owner) && !str_eq(item.owner.as_str(), "__core__");
            keep.push(!removed);
            if removed && item.visible {
                had_visible = true;
            }
            i = i + 1;
        }
        self.items.retain_mask(&keep);
        proof {
            crate::store::lemma_filter_mask_is_filter(before, keep@, pred);
        }
        Ok(had_visible)
    }
}

/// A clear of any owner keeps every item the editor owns.
pub proof fn lemma_clear_keeps_core_items(items: Seq<(Seq<char>, ActivityBarItem)>, owner: Seq<char>, i: int)
    requires
        0 <= i < items.len(),
        items[i].1.owner@ == "__core__"@,
    ensures
        items.filter(|e: (Seq<char>, ActivityBarItem)| !(e.1.owner@ == owner && e.1.owner@ != "__core__"@)).contains(items[i]),
{
    broadcast use vstd::seq_lib::group_filter_ensures;

    items.lemma_filter_contains(|e: (Seq<char>, ActivityBarItem)| !(e.1.owner@ == owner && e.1.owner@ != "__core__"@), i);
}

/// The command a status bar item runs when clicked.
pub struct StatusBarCommand {
    pub id: String,
    pub arguments: Option<Vec<JsonValue>>,
}

#[derive(Clone, Copy, Debug, PartialEq, Eq, Structural)]
pub enum StatusBarAlignment {
    Left,
    Right,
}

/// An item of the status bar.
pub struct StatusBarItem {
    pub id: String,
    pub owner: String,
    pub text: String,
    pub tooltip: Option<String>,
    pub color: Option<String>,
    pub background_color: Option<String>,
    pub command: Option<StatusBarCommand>,
    pub alignment: StatusBarAlignment,
    pub priority: i32,
    pub visible: bool,
}

/// Mathematical form of a [`StatusBarItem`].
pub struct StatusBarItemView {
    pub id: Seq<char>,
    pub owner: Seq<char>,
    pub text: Seq<char>,
    pub tooltip: Option<Seq<char>>,
    pub color: Option<Seq<char>>,
    pub background_color: Option<Seq<char>>,
    pub command: Option<(Seq<char>, Option<Seq<JsonView>>)>,
    pub alignment: StatusBarAlignment,
    pub priority: i32,
    pub visible: bool,
}

/// The view of a status bar command.
pub open spec fn command_view(c: Option<StatusBarCommand>) -> Option<(Seq<char>, Option<Seq<JsonView>>)> {
    match c {
        Some(cmd) => Some(
            (
                cmd.id@,
                match cmd.arguments {
                    Some(a) => Some(array_views(a@)),
                    None => None,
                },
            ),
        ),
        None => None,
    }
}

impl View for StatusBarItem {
    type V = StatusBarItemView;

    open spec fn view(&self) -> StatusBarItemView {
        StatusBarItemView {
            id: self.id@,
            owner: self.owner@,
            text: self.text@,
            tooltip: opt_view(self.tooltip),
            color: opt_view(self.color),
            background_color: opt_view(self.background_color),
            command: command_view(self.command),
            alignment: self.alignment,
            priority: self.priority,
            visible: self.visible,
        }
    }
}

fn duplicate_command(c: &Option<StatusBarCommand>) -> (r: Option<StatusBarCommand>)
    ensures
        command_view(r) == command_view(*c),
{
    match c {
        Some(cmd) => {
            let arguments = match &cmd.arguments {
                Some(a) => {
                    let d = duplicate_all(a);
                    assert(array_views(d@) =~= array_views(a@));
                    Some(d)
                },
                None => None,
            };
            Some(StatusBarCommand { id: cmd.id.clone(), arguments })
        },
        None => None,
    }
}

impl Duplicate for StatusBarItem {
    fn duplicate(&self) -> (r: Self) {
        StatusBarItem {
            id: self.id.clone(),
            owner: self.owner.clone(),
            text: self.text.clone(),
            tooltip: clone_opt(&self.tooltip),
            color: clone_opt(&self.color),
            background_color: clone_opt(&self.background_color),
            command: duplicate_command(&self.command),
            alignment: self.alignment,
            priority: self.priority,
            visible: self.visible,
        }
    }
}

/// Shown items come highest priority first, arrival order among equals.
pub open spec fn status_priority() -> spec_fn(StatusBarItemView) -> (int, Seq<char>) {
    |i: StatusBarItemView| (-(i.priority as int), Seq::<char>::empty())
}

/// The status bar items that show, highest priority first.
pub open spec fn visible_status(items: Seq<(Seq<char>, StatusBarItemView)>) -> Seq<StatusBarItemView> {
    ranked_sort(values_of(items).filter(|i: StatusBarItemView| i.visible), status_priority())
}

pub open spec fn status_missing(key: Seq<char>) -> Seq<char> {
    "Status bar item not found: "@ + key
}

/// An item after an update: each field given replaces the one it had.
pub open spec fn updated_status(
    item: StatusBarItemView,
    text: Option<String>,
    tooltip: Option<String>,
    color: Option<String>,
    background_color: Option<String>,
    command: Option<StatusBarCommand>,
) -> StatusBarItemView {
    StatusBarItemView {
        text: match text {
            Some(t) => t@,
            None => item.text,
        },
        tooltip: match tooltip {
            Some(t) => Some(t@),
            None => item.tooltip,
        },
        color: match color {
            Some(c) => Some(c@),
            None => item.color,
        },
        background_color: match background_color {
            Some(c) => Some(c@),
            None => item.background_color,
        },
        command: match command {
            Some(_) => command_view(command),
            None => item.command,
        },
        ..item
    }
}

/// Status bar items by key.
pub struct StatusBarRegistry {
    items: Store<StatusBarItem>,
}

impl StatusBarRegistry {
    pub closed spec fn items(&self) -> Seq<(Seq<char>, StatusBarItemView)> {
        self.items.entries()
    }

    pub open spec fn wf(&self) -> bool {
        distinct_keys(self.items())
    }

    pub fn new() -> (r: Self)
        ensures
            r.wf(),
            r.items().len() == 0,
    {
        StatusBarRegistry { items: Store::new() }
    }

    /// The key of an item: `owner:id`.
    pub fn item_key(owner: &str, id: &str) -> (r: String)
        ensures
            r@ == item_key_spec(owner@, id@),
    {
        join_with(owner, ':', id)
    }

    /// Adds a hidden, empty item under `owner:id`, replacing one there; gives back the key.
    pub fn create_item(&mut self, owner: String, id: String, alignment: StatusBarAlignment, priority: Option<i32>) -> (r: Result<String, String>)
        requires
            old(self).wf(),
        ensures
            final(self).wf(),
            r matches Ok(key) && key@ == item_key_spec(owner@, id@) && final(self).items() == store_insert(
                old(self).items(),
                key@,
                StatusBarItemView {
                    id: id@,
                    owner: owner@,
                    text: Seq::empty(),
                    tooltip: None,
                    color: None,
                    background_color: None,
                    command: None,
                    alignment,
                    priority: match priority {
                        Some(p) => p,
                        None => 0,
                    },
                    visible: false,
                },
            ),
    {
        let key = Self::item_key(owner.as_str(), id.as_str());
        let item = StatusBarItem {
            id,
            owner,
            text: String::new(),
            tooltip: None,
            color: None,
            background_color: None,
            command: None,
            alignment,
            priority: match priority {
                Some(p) => p,
                None => 0,
            },
            visible: false,
        };
        self.items.insert(key.clone(), item);
        Ok(key)
    }

    /// Replaces the fields given; gives back whether the item shows.
    pub fn update_item(
        &mut self,
        key: String,
        text: Option<String>,
        tooltip: Option<String>,
        color: Option<String>,
        background_color: Option<String>,
        command: Option<StatusBarCommand>,
    ) -> (r: Result<bool, String>)
        requires
            old(self).wf(),
        ensures
            final(self).wf(),
            match lookup(old(self).items(), key@) {
                Some(item) => r == Ok::<bool, String>(item.visible) && final(self).items() == store_insert(
                    old(self).items(),
                    key@,
                    updated_status(item, text, tooltip, color, background_color, command),
                ),
                None => final(self).items() == old(self).items() && (r matches Err(m) && m@ == status_missing(key@)),
            },
    {
        match self.items.get(key.as_str()) {
            Some(item) => {
                let mut item = item;
                let ghost iv = item@;
                let ghost cmdv = command_view(command);
                let ghost want = updated_status(iv, text, tooltip, color, background_color, command);
                if let Some(t) = text {
                    item.text = t;
                }
                if let Some(t) = tooltip {
                    item.tooltip = Some(t);
                }
                if let Some(c) = color {
                    item.color = Some(c);
                }
                if let Some(c) = background_color {
                    item.background_color = Some(c);
                }
                if let Some(c) = command {
                    item.command = Some(c);
                }
                assert(item@ == want);
                let visible = item.visible;
                self.items.insert(key, item);
                Ok(visible)
            },
            None => Err(concat("Status bar item not found: ", key.as_str())),
        }
    }

    fn set_visible(&mut self, key: String, visible: bool) -> (r: Result<bool, String>)
        requires
            old(self).wf(),
        ensures
            final(self).wf(),
            match lookup(old(self).items(), key@) {
                Some(item) => if item.visible == visible {
                    r == Ok::<bool, String>(false) && final(self).items() == old(self).items()
                } else {
                    r == Ok::<bool, String>(true) && final(self).items() == store_insert(
                        old(self).items(),
                        key@,
                        StatusBarItemView { visible, ..item },
                    )
                },
                None => final(self).items() == old(self).items() && (r matches Err(m) && m@ == status_missing(key@)),
            },
    {
        match self.items.get(key.as_str()) {
            Some(item) => {
                if item.visible == visible {
                    return Ok(false);
                }
                let mut item = item;
                item.visible = visible;
                self.items.insert(key, item);
                Ok(true)
            },
            None => Err(concat("Status bar item not found: ", key.as_str())),
        }
    }

    /// Shows an item; gives back whether the shown items changed.
    pub fn show_item(&mut self, key: String) -> (r: Result<bool, String>)
        requires
            old(self).wf(),
        ensures
            final(self).wf(),
            match lookup(old(self).items(), key@) {
                Some(item) => if item.visible {
                    r == Ok::<bool, String>(false) && final(self).items() == old(self).items()
                } else {
                    r == Ok::<bool, String>(true) && final(self).items() == store_insert(
                        old(self).items(),
                        key@,
                        StatusBarItemView { visible: true, ..item },
                    )
                },
                None => final(self).items() == old(self).items() && (r matches Err(m) && m@ == status_missing(key@)),
            },
    {
        self.set_visible(key, true)
    }

    /// Hides an item; gives back whether the shown items changed.
    pub fn hide_item(&mut self, key: String) -> (r: Result<bool, String>)
        requires
            old(self).wf(),
        ensures
            final(self).wf(),
            match lookup(old(self).items(), key@) {
                Some(item) => if !item.visible {
                    r == Ok::<bool, String>(false) && final(self).items() == old(self).items()
                } else {
                    r == Ok::<bool, String>(true) && final(self).items() == store_insert(
                        old(self).items(),
                        key@,
                        StatusBarItemView { visible: false, ..item },
                    )
                },
                None => final(self).items() == old(self).items() && (r matches Err(m) && m@ == status_missing(key@)),
            },
    {
        self.set_visible(key, false)
    }

    /// Removes an item; gives back whether it was shown.
    pub fn dispose_item(&mut self, key: String) -> (r: Result<bool, String>)
        requires
            old(self).wf(),
        ensures
            final(self).wf(),
            final(self).items() == store_remove(old(self).items(), key@),
            match lookup(old(self).items(), key@) {
                Some(item) => r == Ok::<bool, String>(item.visible),
                None => r matches Err(m) && m@ == status_missing(key@),
            },
    {
        match self.items.remove(key.as_str()) {
            Some(item) => Ok(item.visible),
            None => Err(concat("Status bar item not found: ", key.as_str())),
        }
    }

    /// The items that show, highest priority first.
    pub fn get_visible_items(&self) -> (r: Vec<StatusBarItem>)
        ensures
            views(r@) == visible_status(self.items()),
    {
        let all = self.items.values();
        let mut visible: Vec<bool> = Vec::new();
        let mut priority: Vec<i32> = Vec::new();
        let mut i: usize = 0;
        while i < all.len()
            invariant
                i <= all@.len(),
                visible@.len() == i,
                priority@.len() == i,
                forall|k: int| 0 <= k < i ==> visible@[k] == (#[trigger] all@[k]).visible,
                forall|k: int| 0 <= k < i ==> priority@[k] == (#[trigger] all@[k]).priority,
            decreases all@.len() - i,
        {
            visible.push(all[i].visible);
            priority.push(all[i].priority);
            i = i + 1;
        }
        sort_visible(&all, &visible, &priority, Ghost(status_priority()), Ghost(|i: StatusBarItemView| i.visible))
    }

    /// A copy of the item under `key`.
    pub fn get_item(&self, key: &str) -> (r: Option<StatusBarItem>)
        ensures
            match lookup(self.items(), key@) {
                Some(item) => r matches Some(got) && got@ == item,
                None => r is None,
            },
    {
        self.items.get(key)
    }

    /// Removes the items of `owner`; gives back whether a shown item went.
    pub fn clear_owner_items(&mut self, owner: &str) -> (r: Result<bool, String>)
        requires
            old(self).wf(),
        ensures
            final(self).wf(),
            final(self).items() == old(self).items().filter(|e: (Seq<char>, StatusBarItemView)| e.1.owner != owner@),
            r == Ok::<bool, String>(
                exists|i: int|
                    0 <= i < old(self).items().len() && (#[trigger] old(self).items()[i]).1.owner == owner@
                        && old(self).items()[i].1.visible,
            ),
    {
        let ghost before = self.items();
        let ghost pred = |e: (Seq<char>, StatusBarItemView)| e.1.owner != owner@;
        let n = self.items.len();
        let mut keep: Vec<bool> = Vec::new();
        let mut had_visible = false;
        let mut i: usize = 0;
        while i < n
            invariant
                n == before.len(),
                before == self.items(),
                i <= n,
                keep@.len() == i,
                pred == (|e: (Seq<char>, StatusBarItemView)| e.1.owner != owner@),
                forall|k: int| 0 <= k < i ==> keep@[k] == pred(#[trigger] before[k]),
                had_visible == exists|k: int| 0 <= k < i && !pred(#[trigger] before[k]) && before[k].1.visible,
            decreases n - i,
        {
            let (_, item) = self.items.entry_at(i);
            let removed = str_eq(item.owner.as_str(), owner);
            keep.push(!removed);
            if removed && item.visible {
                had_visible = true;
            }
            i = i + 1;
        }
        self.items.retain_mask(&keep);
        proof {
            crate::store::lemma_filter_mask_is_filter(before, keep@, pred);
        }
        Ok(had_visible)
    }
}

} // verus!
