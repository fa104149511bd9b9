//! Menu contributions: where they appear, in which order, and when they show.
use vstd::prelude::*;
use crate::store::{Duplicate, Store, lookup, distinct_keys, store_insert};
use crate::text::{str_eq, owned, clone_opt, opt_view};
use crate::order::{
    seq_lt, str_compare, lemma_seq_lt_irreflexive, lemma_seq_lt_asymmetric, lemma_seq_lt_total,
    lemma_seq_lt_transitive,
};
use crate::json::JsonValue;
use crate::paths::{extension, extension_spec};

verus! {

/// Where a menu item appears (the menu identifiers of the editor).
#[derive(Debug, Clone, PartialEq, Eq, Hash)]
pub enum MenuLocation {
    EditorContext,
    EditorTitle,
    EditorTitleContext,
    ExplorerContext,
    ScmTitle,
    ScmResourceContext,
    ViewTitle,
    ViewItemContext,
    CommandPalette,
    Custom(String),
}

/// Mathematical form of a [`MenuLocation`].
pub enum MenuLocationName {
    EditorContext,
    EditorTitle,
    EditorTitleContext,
    ExplorerContext,
    ScmTitle,
    ScmResourceContext,
    ViewTitle,
    ViewItemContext,
    CommandPalette,
    Custom(Seq<char>),
}

impl View for MenuLocation {
    type V = MenuLocationName;

    open spec fn view(&self) -> MenuLocationName {
        match self {
            MenuLocation::EditorContext => MenuLocationName::EditorContext,
            MenuLocation::EditorTitle => MenuLocationName::EditorTitle,
            MenuLocation::EditorTitleContext => MenuLocationName::EditorTitleContext,
            MenuLocation::ExplorerContext => MenuLocationName::ExplorerContext,
            MenuLocation::ScmTitle => MenuLocationName::ScmTitle,
            MenuLocation::ScmResourceContext => MenuLocationName::ScmResourceContext,
            MenuLocation::ViewTitle => MenuLocationName::ViewTitle,
            MenuLocation::ViewItemContext => MenuLocationName::ViewItemContext,
            MenuLocation::CommandPalette => MenuLocationName::CommandPalette,
            MenuLocation::Custom(s) => MenuLocationName::Custom(s@),
        }
    }
}

/// The identifier under which a location is written.
pub open spec fn location_id(l: MenuLocationName) -> Seq<char> {
    match l {
        MenuLocationName::EditorContext => "editor/context"@,
        MenuLocationName::EditorTitle => "editor/title"@,
        MenuLocationName::EditorTitleContext => "editor/title/context"@,
        MenuLocationName::ExplorerContext => "explorer/context"@,
        MenuLocationName::ScmTitle => "scm/title"@,
        MenuLocationName::ScmResourceContext => "scm/resourceState/context"@,
        MenuLocationName::ViewTitle => "view/title"@,
        MenuLocationName::ViewItemContext => "view/item/context"@,
        MenuLocationName::CommandPalette => "commandPalette"@,
        MenuLocationName::Custom(s) => s,
    }
}

/// The location an identifier names: a known one, or a custom one.
pub open spec fn parse_location(s: Seq<char>) -> MenuLocationName {
    if s == "editor/context"@ {
        MenuLocationName::EditorContext
    } else if s == "editor/title"@ {
        MenuLocationName::EditorTitle
    } else if s == "editor/title/context"@ {
        MenuLocationName::EditorTitleContext
    } else if s == "explorer/context"@ {
        MenuLocationName::ExplorerContext
    } else if s == "scm/title"@ {
        MenuLocationName::ScmTitle
    } else if s == "scm/resourceState/context"@ {
        MenuLocationName::ScmResourceContext
    } else if s == "view/title"@ {
        MenuLocationName::ViewTitle
    } else if s == "view/item/context"@ {
        MenuLocationName::ViewItemContext
    } else if s == "commandPalette"@ {
        MenuLocationName::CommandPalette
    } else {
        MenuLocationName::Custom(s)
    }
}

impl MenuLocation {
    /// The location named by an identifier; unknown identifiers are custom locations.
    pub fn from_str(s: &str) -> (r: Self)
        ensures
            r@ == parse_location(s@),
    {
        if str_eq(s, "editor/context") {
            MenuLocation::EditorContext
        } else if str_eq(s, "editor/title") {
            MenuLocation::EditorTitle
        } else if str_eq(s, "editor/title/context") {
            MenuLocation::EditorTitleContext
        } else if str_eq(s, "explorer/context") {
            MenuLocation::ExplorerContext
        } else if str_eq(s, "scm/title") {
            MenuLocation::ScmTitle
        } else if str_eq(s, "scm/resourceState/context") {
            MenuLocation::ScmResourceContext
        } else if str_eq(s, "view/title") {
            MenuLocation::ViewTitle
        } else if str_eq(s, "view/item/context") {
            MenuLocation::ViewItemContext
        } else if str_eq(s, "commandPalette") {
            MenuLocation::CommandPalette
        } else {
            MenuLocation::Custom(owned(s))
        }
    }

    /// The identifier of this location.
    pub fn to_string(&self) -> (r: String)
        ensures
            r@ == location_id(self@),
    {
        match self {
            MenuLocation::EditorContext => owned("editor/context"),
            MenuLocation::EditorTitle => owned("editor/title"),
            MenuLocation::EditorTitleContext => owned("editor/title/context"),
            MenuLocation::ExplorerContext => owned("explorer/context"),
            MenuLocation::ScmTitle => owned("scm/title"),
            MenuLocation::ScmResourceContext => owned("scm/resourceState/context"),
            MenuLocation::ViewTitle => owned("view/title"),
            MenuLocation::ViewItemContext => owned("view/item/context"),
            MenuLocation::CommandPalette => owned("commandPalette"),
            MenuLocation::Custom(s) => s.clone(),
        }
    }
}

/// Writing out the location an identifier names gives back the identifier.
pub proof fn lemma_location_id_of_parse(s: Seq<char>)
    ensures
        location_id(parse_location(s)) == s,
{
}

/// A known location, written out and read back, is the same location.
pub proof fn lemma_parse_of_location_id(l: MenuLocationName)
    requires
        !(l is Custom),
    ensures
        parse_location(location_id(l)) == l,
{
    reveal_strlit("editor/context");
    reveal_strlit("editor/title");
    reveal_strlit("editor/title/context");
    reveal_strlit("explorer/context");
    reveal_strlit("scm/title");
    reveal_strlit("scm/resourceState/context");
    reveal_strlit("view/title");
    reveal_strlit("view/item/context");
    reveal_strlit("commandPalette");
    match l {
        MenuLocationName::EditorContext => {},
        MenuLocationName::EditorTitle => {
            assert("editor/title"@[7] != "editor/context"@[7]);
        },
        MenuLocationName::EditorTitleContext => {
            assert("editor/title/context"@.len() != "editor/context"@.len());
            assert("editor/title/context"@.len() != "editor/title"@.len());
        },
        MenuLocationName::ExplorerContext => {
            assert("explorer/context"@[1] != "editor/context"@[1]);
        },
        MenuLocationName::ScmTitle => {
            assert("scm/title"@[0] != "editor/context"@[0]);
            assert("scm/title"@[0] != "explorer/context"@[0]);
        },
        MenuLocationName::ScmResourceContext => {
            assert("scm/resourceState/context"@[0] != "editor/context"@[0]);
            assert("scm/resourceState/context"@[0] != "explorer/context"@[0]);
            assert("scm/resourceState/context"@.len() != "scm/title"@.len());
        },
        MenuLocationName::ViewTitle => {
            assert("view/title"@[0] != "editor/context"@[0]);
            assert("view/title"@[0] != "explorer/context"@[0]);
            assert("view/title"@[0] != "scm/title"@[0]);
        },
        MenuLocationName::ViewItemContext => {
            assert("view/item/context"@[0] != "editor/context"@[0]);
            assert("view/item/context"@[0] != "explorer/context"@[0]);
            assert("view/item/context"@[0] != "scm/title"@[0]);
            assert("view/item/context"@.len() != "view/title"@.len());
        },
        MenuLocationName::CommandPalette => {
            assert("commandPalette"@[0] != "editor/context"@[0]);
            assert("commandPalette"@[0] != "explorer/context"@[0]);
            assert("commandPalette"@[0] != "scm/title"@[0]);
            assert("commandPalette"@[0] != "view/title"@[0]);
        },
        MenuLocationName::Custom(_) => {},
    }
}

} // verus!

verus! {

/// One menu item contributed by the editor or an extension.
#[derive(Debug, Clone)]
pub struct MenuItem {
    /// Command to run.
    pub command: String,
    /// Location identifier; the command palette when absent.
    pub location: Option<String>,
    /// When clause deciding visibility.
    pub when: Option<String>,
    /// Group within the menu, such as `navigation` or `1_modification`.
    pub group: Option<String>,
    /// Title shown in place of the command's own.
    pub title: Option<String>,
    pub icon: Option<String>,
    /// Contributing extension.
    pub owner: String,
    /// Command run when Alt is held.
    pub alt: Option<String>,
}

/// Mathematical form of a [`MenuItem`].
pub struct MenuItemView {
    pub command: Seq<char>,
    pub location: Option<Seq<char>>,
    pub when: Option<Seq<char>>,
    pub group: Option<Seq<char>>,
    pub title: Option<Seq<char>>,
    pub icon: Option<Seq<char>>,
    pub owner: Seq<char>,
    pub alt: Option<Seq<char>>,
}

impl View for MenuItem {
    type V = MenuItemView;

    open spec fn view(&self) -> MenuItemView {
        MenuItemView {
            command: self.command@,
            location: opt_view(self.location),
            when: opt_view(self.when),
            group: opt_view(self.group),
            title: opt_view(self.title),
            icon: opt_view(self.icon),
            owner: self.owner@,
            alt: opt_view(self.alt),
        }
    }
}

impl Duplicate for MenuItem {
    fn duplicate(&self) -> (r: Self) {
        MenuItem {
            command: self.command.clone(),
            location: clone_opt(&self.location),
            when: clone_opt(&self.when),
            group: clone_opt(&self.group),
            title: clone_opt(&self.title),
            icon: clone_opt(&self.icon),
            owner: self.owner.clone(),
            alt: clone_opt(&self.alt),
        }
    }
}

/// The key menus are ordered by: the group (`z_other` when absent), then the
/// title (the command when absent).
pub open spec fn menu_sort_key(m: MenuItemView) -> (Seq<char>, Seq<char>) {
    (
        match m.group {
            Some(g) => g,
            None => "z_other"@,
        },
        match m.title {
            Some(t) => t,
            None => m.command,
        },
    )
}

/// Lexicographic order of sort keys.
pub open spec fn key_lt(a: (Seq<char>, Seq<char>), b: (Seq<char>, Seq<char>)) -> bool {
    seq_lt(a.0, b.0) || (a.0 == b.0 && seq_lt(a.1, b.1))
}

impl MenuItem {
    /// The sort key of this item.
    pub fn sort_key(&self) -> (r: (String, String))
        ensures
            (r.0@, r.1@) == menu_sort_key(self@),
    {
        let group = match &self.group {
            Some(g) => g.clone(),
            None => owned("z_other"),
        };
        let title = match &self.title {
            Some(t) => t.clone(),
            None => self.command.clone(),
        };
        (group, title)
    }
}

/// Whether `a` sorts strictly before `b`.
pub fn sorts_before(a: &MenuItem, b: &MenuItem) -> (r: bool)
    ensures
        r == key_lt(menu_sort_key(a@), menu_sort_key(b@)),
{
    let ka = a.sort_key();
    let kb = b.sort_key();
    let c0 = str_compare(ka.0.as_str(), kb.0.as_str());
    if c0 == -1 {
        true
    } else if c0 == 0 {
        str_compare(ka.1.as_str(), kb.1.as_str()) == -1
    } else {
        proof {
            lemma_seq_lt_asymmetric(ka.0@, kb.0@);
        }
        false
    }
}

pub proof fn lemma_key_lt_irreflexive(a: (Seq<char>, Seq<char>))
    ensures
        !key_lt(a, a),
{
    lemma_seq_lt_irreflexive(a.0);
    lemma_seq_lt_irreflexive(a.1);
}

pub proof fn lemma_key_lt_transitive(
    a: (Seq<char>, Seq<char>),
    b: (Seq<char>, Seq<char>),
    c: (Seq<char>, Seq<char>),
)
    requires
        key_lt(a, b),
        key_lt(b, c),
    ensures
        key_lt(a, c),
{
    if seq_lt(a.0, b.0) && seq_lt(b.0, c.0) {
        lemma_seq_lt_transitive(a.0, b.0, c.0);
    } else if seq_lt(a.1, b.1) && seq_lt(b.1, c.1) && a.0 == b.0 && b.0 == c.0 {
        lemma_seq_lt_transitive(a.1, b.1, c.1);
    }
}

pub proof fn lemma_key_lt_total(a: (Seq<char>, Seq<char>), b: (Seq<char>, Seq<char>))
    ensures
        key_lt(a, b) || key_lt(b, a) || a == b,
{
    lemma_seq_lt_total(a.0, b.0);
    lemma_seq_lt_total(a.1, b.1);
}

/// Each item's key is no smaller than the keys before it.
pub open spec fn sorted_menu(s: Seq<MenuItemView>) -> bool {
    forall|i: int, j: int|
        0 <= i < j < s.len() ==> !key_lt(menu_sort_key(#[trigger] s[j]), menu_sort_key(
            #[trigger] s[i],
        ))
}

/// Where a new item goes in a sorted list: after every item whose key is not
/// greater than its own, so that items with equal keys keep their arrival order.
pub open spec fn insertion_point(s: Seq<MenuItemView>, x: MenuItemView) -> int
    decreases s.len(),
{
    if s.len() == 0 {
        0
    } else if key_lt(menu_sort_key(x), menu_sort_key(s.last())) {
        insertion_point(s.drop_last(), x)
    } else {
        s.len() as int
    }
}

/// The list after adding `x` and sorting stably by key.
pub open spec fn sorted_insert(s: Seq<MenuItemView>, x: MenuItemView) -> Seq<MenuItemView> {
    s.insert(insertion_point(s, x), x)
}

pub proof fn lemma_insertion_point(s: Seq<MenuItemView>, x: MenuItemView)
    requires
        sorted_menu(s),
    ensures
        0 <= insertion_point(s, x) <= s.len(),
        forall|k: int|
            0 <= k < insertion_point(s, x) ==> !key_lt(
                menu_sort_key(x),
                menu_sort_key(#[trigger] s[k]),
            ),
        forall|k: int|
            insertion_point(s, x) <= k < s.len() ==> key_lt(
                menu_sort_key(x),
                menu_sort_key(#[trigger] s[k]),
            ),
    decreases s.len(),
{
    if s.len() > 0 {
        let last = s.last();
        if key_lt(menu_sort_key(x), menu_sort_key(last)) {
            assert(sorted_menu(s.drop_last()));
            lemma_insertion_point(s.drop_last(), x);
            assert forall|k: int| insertion_point(s, x) <= k < s.len() implies key_lt(
                menu_sort_key(x),
                menu_sort_key(#[trigger] s[k]),
            ) by {
                if k < s.len() - 1 {
                    assert(s.drop_last()[k] == s[k]);
                }
            }
            assert forall|k: int| 0 <= k < insertion_point(s, x) implies !key_lt(
                menu_sort_key(x),
                menu_sort_key(#[trigger] s[k]),
            ) by {
                assert(s.drop_last()[k] == s[k]);
            }
        } else {
            assert forall|k: int| 0 <= k < s.len() implies !key_lt(
                menu_sort_key(x),
                menu_sort_key(#[trigger] s[k]),
            ) by {
                if k < s.len() - 1 && key_lt(menu_sort_key(x), menu_sort_key(s[k])) {
                    assert(!key_lt(menu_sort_key(s[s.len() - 1]), menu_sort_key(s[k])));
                    lemma_key_lt_total(menu_sort_key(s[k]), menu_sort_key(last));
                    if key_lt(menu_sort_key(s[k]), menu_sort_key(last)) {
                        lemma_key_lt_transitive(
                            menu_sort_key(x),
                            menu_sort_key(s[k]),
                            menu_sort_key(last),
                        );
                    }
                }
            }
        }
    }
}

/// Adding an item to a sorted list keeps it sorted.
pub proof fn lemma_sorted_insert_sorted(s: Seq<MenuItemView>, x: MenuItemView)
    requires
        sorted_menu(s),
    ensures
        sorted_menu(sorted_insert(s, x)),
        sorted_insert(s, x).len() == s.len() + 1,
        sorted_insert(s, x).contains(x),
{
    lemma_insertion_point(s, x);
    let p = insertion_point(s, x);
    let r = sorted_insert(s, x);
    assert(r[p] == x);
    assert forall|i: int, j: int| 0 <= i < j < r.len() implies !key_lt(
        menu_sort_key(#[trigger] r[j]),
        menu_sort_key(#[trigger] r[i]),
    ) by {
        if j < p {
        } else if j == p {
            assert(r[i] == s[i]);
        } else if i == p {
            assert(r[j] == s[j - 1]);
            lemma_key_lt_irreflexive(menu_sort_key(x));
            if key_lt(menu_sort_key(s[j - 1]), menu_sort_key(x)) {
                lemma_key_lt_transitive(menu_sort_key(x), menu_sort_key(s[j - 1]), menu_sort_key(x));
            }
        } else if i < p {
            assert(r[i] == s[i]);
            assert(r[j] == s[j - 1]);
        } else {
            assert(r[i] == s[i - 1]);
            assert(r[j] == s[j - 1]);
        }
    }
}

/// Inserts `item` into the sorted list `items` where [`sorted_insert`] puts it.
fn insert_sorted(items: &mut Vec<MenuItem>, item: MenuItem)
    ensures
        final(items)@.map_values(|m: MenuItem| m@) == sorted_insert(
            old(items)@.map_values(|m: MenuItem| m@),
            item@,
        ),
{
    let ghost s = items@.map_values(|m: MenuItem| m@);
    let mut j: usize = items.len();
    assert(s.take(j as int) =~= s);
    while j > 0 && sorts_before(&item, &items[j - 1])
        invariant
            j <= items@.len(),
            s == items@.map_values(|m: MenuItem| m@),
            insertion_point(s, item@) == insertion_point(s.take(j as int), item@),
        decreases j,
    {
        assert(s.take(j as int).drop_last() =~= s.take(j - 1));
        assert(s.take(j as int).last() == s[j - 1]);
        j = j - 1;
    }
    proof {
        if j > 0 {
            assert(s.take(j as int).last() == s[j - 1]);
        }
    }
    items.insert(j, item);
    assert(items@.map_values(|m: MenuItem| m@) =~= s.insert(j as int, item@));
}

} // verus!

verus! {

/// Keeping the items that satisfy a condition keeps a sorted list sorted.
pub proof fn lemma_filter_sorted(s: Seq<MenuItemView>, p: spec_fn(MenuItemView) -> bool)
    requires
        sorted_menu(s),
    ensures
        sorted_menu(s.filter(p)),
    decreases s.len(),
{
    broadcast use vstd::seq_lib::group_filter_ensures;

    if s.len() > 0 {
        let rest = s.drop_last();
        assert(rest.push(s.last()) =~= s);
        assert(sorted_menu(rest));
        lemma_filter_sorted(rest, p);
        rest.lemma_filter_push(s.last(), p);
        if p(s.last()) {
            let r = rest.filter(p).push(s.last());
            assert forall|i: int, j: int| 0 <= i < j < r.len() implies !key_lt(
                menu_sort_key(#[trigger] r[j]),
                menu_sort_key(#[trigger] r[i]),
            ) by {
                if j == r.len() - 1 {
                    assert(rest.filter(p).contains(r[i]));
                    rest.lemma_filter_contains_rev(p, r[i]);
                    let k = choose|k: int| 0 <= k < rest.len() && rest[k] == r[i];
                    assert(s[k] == r[i]);
                    assert(s[s.len() - 1] == r[j]);
                }
            }
        }
    }
}

/// The items of one menu location, in display order.
pub struct MenuList {
    pub items: Vec<MenuItem>,
}

impl View for MenuList {
    type V = Seq<MenuItemView>;

    open spec fn view(&self) -> Seq<MenuItemView> {
        self.items@.map_values(|m: MenuItem| m@)
    }
}

/// Copies of menu items.
pub fn duplicate_items(v: &Vec<MenuItem>) -> (r: Vec<MenuItem>)
    ensures
        r@.map_values(|m: MenuItem| m@) == v@.map_values(|m: MenuItem| m@),
{
    let mut r: Vec<MenuItem> = Vec::new();
    let mut i: usize = 0;
    while i < v.len()
        invariant
            i <= v@.len(),
            r@.len() == i,
            forall|j: int| 0 <= j < i ==> (#[trigger] r@[j])@ == v@[j]@,
        decreases v@.len() - i,
    {
        let c = v[i].duplicate();
        r.push(c);
        i = i + 1;
    }
    assert(r@.map_values(|m: MenuItem| m@) =~= v@.map_values(|m: MenuItem| m@));
    r
}

impl Duplicate for MenuList {
    fn duplicate(&self) -> (r: Self) {
        MenuList { items: duplicate_items(&self.items) }
    }
}

/// What a when clause is evaluated against.
pub struct MenuContext {
    pub has_selection: bool,
    pub editor_focused: bool,
    pub explorer_focused: bool,
    /// Extension of the selected resource.
    pub resource_extension: Option<String>,
    /// Full path of the selected resource.
    pub resource_path: Option<String>,
    /// Language of the active editor.
    pub language_id: Option<String>,
    pub in_debug_mode: bool,
    /// Context keys set by extensions.
    pub custom: Vec<(String, JsonValue)>,
}

/// Whether a when clause holds in a context. The clauses understood are the
/// focus and selection keys and `resourceExtname == .rs`, `.ts` and `.js`;
/// any other clause holds.
pub open spec fn when_holds(w: Seq<char>, ctx: MenuContext) -> bool {
    if w == "editorHasSelection"@ {
        ctx.has_selection
    } else if w == "editorTextFocus"@ {
        ctx.editor_focused
    } else if w == "explorerViewletFocus"@ {
        ctx.explorer_focused
    } else if w == "resourceExtname == .rs"@ {
        opt_view(ctx.resource_extension) == Some("rs"@)
    } else if w == "resourceExtname == .ts"@ {
        opt_view(ctx.resource_extension) == Some("ts"@)
    } else if w == "resourceExtname == .js"@ {
        opt_view(ctx.resource_extension) == Some("js"@)
    } else {
        true
    }
}

/// An item shows in a context when it has no when clause or its clause holds.
pub open spec fn item_visible(m: MenuItemView, ctx: MenuContext) -> bool {
    match m.when {
        Some(w) => when_holds(w, ctx),
        None => true,
    }
}

fn extension_is(ctx: &MenuContext, ext: &str) -> (r: bool)
    ensures
        r == (opt_view(ctx.resource_extension) == Some(ext@)),
{
    match &ctx.resource_extension {
        Some(e) => str_eq(e.as_str(), ext),
        None => false,
    }
}

impl MenuContext {
    /// A context with nothing selected, focused or set.
    pub fn new() -> (r: Self)
        ensures
            !r.has_selection,
            !r.editor_focused,
            !r.explorer_focused,
            r.resource_extension is None,
            r.resource_path is None,
            r.language_id is None,
            !r.in_debug_mode,
            r.custom@.len() == 0,
    {
        MenuContext {
            has_selection: false,
            editor_focused: false,
            explorer_focused: false,
            resource_extension: None,
            resource_path: None,
            language_id: None,
            in_debug_mode: false,
            custom: Vec::new(),
        }
    }

    pub fn with_selection(self, has_selection: bool) -> (r: Self)
        ensures
            r == (MenuContext { has_selection, ..self }),
    {
        let mut c = self;
        c.has_selection = has_selection;
        c
    }

    pub fn with_editor_focus(self, focused: bool) -> (r: Self)
        ensures
            r == (MenuContext { editor_focused: focused, ..self }),
    {
        let mut c = self;
        c.editor_focused = focused;
        c
    }

    /// Records the selected resource, and its extension when it has one.
    pub fn with_resource(self, path: String) -> (r: Self)
        ensures
            opt_view(r.resource_path) == Some(path@),
            opt_view(r.resource_extension) == match extension_spec(path@) {
                Some(e) => Some(e),
                None => opt_view(self.resource_extension),
            },
            r.has_selection == self.has_selection,
            r.editor_focused == self.editor_focused,
            r.explorer_focused == self.explorer_focused,
            r.language_id == self.language_id,
            r.in_debug_mode == self.in_debug_mode,
            r.custom == self.custom,
    {
        let mut c = self;
        match extension(path.as_str()) {
            Some(e) => {
                c.resource_extension = Some(e);
            },
            None => {},
        }
        c.resource_path = Some(path);
        c
    }
}

/// Whether the when clause `when` holds in `context`.
pub fn evaluate_when_clause(when: &str, context: &MenuContext) -> (r: bool)
    ensures
        r == when_holds(when@, *context),
{
    if str_eq(when, "editorHasSelection") {
        context.has_selection
    } else if str_eq(when, "editorTextFocus") {
        context.editor_focused
    } else if str_eq(when, "explorerViewletFocus") {
        context.explorer_focused
    } else if str_eq(when, "resourceExtname == .rs") {
        extension_is(context, "rs")
    } else if str_eq(when, "resourceExtname == .ts") {
        extension_is(context, "ts")
    } else if str_eq(when, "resourceExtname == .js") {
        extension_is(context, "js")
    } else {
        true
    }
}

} // verus!

verus! {

/// The location an item is listed under: its own, or the command palette.
pub open spec fn item_location(m: MenuItemView) -> Seq<char> {
    match m.location {
        Some(l) => l,
        None => "commandPalette"@,
    }
}

/// The items listed under `location`.
pub open spec fn listed(state: Seq<(Seq<char>, Seq<MenuItemView>)>, location: Seq<char>) -> Seq<
    MenuItemView,
> {
    match lookup(state, location) {
        Some(items) => items,
        None => Seq::empty(),
    }
}

/// The menus after registering `m`: it joins its location's list in sort order.
pub open spec fn register_spec(state: Seq<(Seq<char>, Seq<MenuItemView>)>, m: MenuItemView) -> Seq<
    (Seq<char>, Seq<MenuItemView>),
> {
    store_insert(state, item_location(m), sorted_insert(listed(state, item_location(m)), m))
}

/// The menus after registering `items` one after another.
pub open spec fn register_all(
    state: Seq<(Seq<char>, Seq<MenuItemView>)>,
    items: Seq<MenuItemView>,
) -> Seq<(Seq<char>, Seq<MenuItemView>)>
    decreases items.len(),
{
    if items.len() == 0 {
        state
    } else {
        register_spec(register_all(state, items.drop_last()), items.last())
    }
}

/// The menus after removing every item of `owner`; locations stay.
pub open spec fn clear_owner_spec(state: Seq<(Seq<char>, Seq<MenuItemView>)>, owner: Seq<char>) -> Seq<
    (Seq<char>, Seq<MenuItemView>),
> {
    state.map_values(
        |e: (Seq<char>, Seq<MenuItemView>)| (e.0, e.1.filter(|m: MenuItemView| m.owner != owner)),
    )
}

/// Every location's list is sorted.
pub open spec fn all_sorted(state: Seq<(Seq<char>, Seq<MenuItemView>)>) -> bool {
    forall|i: int| 0 <= i < state.len() ==> sorted_menu(#[trigger] state[i].1)
}

fn builtin_item(
    command: &str,
    location: &str,
    when: Option<&str>,
    group: &str,
    title: &str,
) -> (r: MenuItem)
    ensures
        r@ == (MenuItemView {
            command: command@,
            location: Some(location@),
            when: match when {
                Some(w) => Some(w@),
                None => None,
            },
            group: Some(group@),
            title: Some(title@),
            icon: None,
            owner: "__builtin__"@,
            alt: None,
        }),
{
    MenuItem {
        command: owned(command),
        location: Some(owned(location)),
        when: match when {
            Some(w) => Some(owned(w)),
            None => None,
        },
        group: Some(owned(group)),
        title: Some(owned(title)),
        icon: None,
        owner: owned("__builtin__"),
        alt: None,
    }
}

/// A built-in item as the editor registers it.
pub open spec fn builtin_view(
    command: Seq<char>,
    location: Seq<char>,
    when: Option<Seq<char>>,
    group: Seq<char>,
    title: Seq<char>,
) -> MenuItemView {
    MenuItemView {
        command,
        location: Some(location),
        when,
        group: Some(group),
        title: Some(title),
        icon: None,
        owner: "__builtin__"@,
        alt: None,
    }
}

/// The editor's own menu items, in registration order.
pub open spec fn builtin_menu_items() -> Seq<MenuItemView> {
    seq![
        builtin_view("editor.action.formatDocument"@, "editor/context"@, Some("editorHasSelection"@), "1_modification"@, "Format Document"@),
        builtin_view("editor.action.commentLine"@, "editor/context"@, Some("editorTextFocus"@), "1_modification"@, "Toggle Line Comment"@),
        builtin_view("explorer.newFile"@, "explorer/context"@, Some("explorerResourceIsDirectory"@), "1_new"@, "New File"@),
        builtin_view("explorer.newFolder"@, "explorer/context"@, Some("explorerResourceIsDirectory"@), "1_new"@, "New Folder"@),
        builtin_view("file.delete"@, "explorer/context"@, None, "2_workspace"@, "Delete"@),
        builtin_view("file.rename"@, "explorer/context"@, None, "2_workspace"@, "Rename"@),
        builtin_view("copyFilePath"@, "explorer/context"@, None, "5_cutcopypaste"@, "Copy Path"@),
        builtin_view("copyRelativeFilePath"@, "explorer/context"@, None, "5_cutcopypaste"@, "Copy Relative Path"@),
    ]
}

fn builtin_menu_items_exec() -> (r: Vec<MenuItem>)
    ensures
        r@.map_values(|m: MenuItem| m@) == builtin_menu_items(),
{
    let v = vec![
        builtin_item("editor.action.formatDocument", "editor/context", Some("editorHasSelection"), "1_modification", "Format Document"),
        builtin_item("editor.action.commentLine", "editor/context", Some("editorTextFocus"), "1_modification", "Toggle Line Comment"),
        builtin_item("explorer.newFile", "explorer/context", Some("explorerResourceIsDirectory"), "1_new", "New File"),
        builtin_item("explorer.newFolder", "explorer/context", Some("explorerResourceIsDirectory"), "1_new", "New Folder"),
        builtin_item("file.delete", "explorer/context", None, "2_workspace", "Delete"),
        builtin_item("file.rename", "explorer/context", None, "2_workspace", "Rename"),
        builtin_item("copyFilePath", "explorer/context", None, "5_cutcopypaste", "Copy Path"),
        builtin_item("copyRelativeFilePath", "explorer/context", None, "5_cutcopypaste", "Copy Relative Path"),
    ];
    assert(v@.map_values(|m: MenuItem| m@) =~= builtin_menu_items());
    v
}

/// All menu contributions, one sorted list per location.
pub struct MenuRegistry {
    menus: Store<MenuList>,
}

impl MenuRegistry {
    /// Each location with its items, in the order locations were first used.
    pub closed spec fn state(&self) -> Seq<(Seq<char>, Seq<MenuItemView>)> {
        self.menus.entries()
    }

    pub open spec fn wf(&self) -> bool {
        &&& distinct_keys(self.state())
        &&& all_sorted(self.state())
    }

    /// A registry holding the editor's built-in items.
    pub fn new() -> (r: Self)
        ensures
            r.wf(),
            r.state() == register_all(Seq::empty(), builtin_menu_items()),
    {
        let mut r = MenuRegistry { menus: Store::new() };
        r.register_builtin_menus();
        r
    }

    /// Registers the editor's built-in menu items.
    fn register_builtin_menus(&mut self)
        requires
            old(self).wf(),
        ensures
            final(self).wf(),
            final(self).state() == register_all(old(self).state(), builtin_menu_items()),
    {
        let items = builtin_menu_items_exec();
        assert(items@.map_values(|m: MenuItem| m@) == builtin_menu_items());
        let _ = self.register_menu_items(items);
    }

    /// Adds `item` to its location's list, in sort order; always succeeds.
    pub fn register_menu_item(&mut self, item: MenuItem) -> (r: Result<(), String>)
        requires
            old(self).wf(),
        ensures
            final(self).wf(),
            final(self).state() == register_spec(old(self).state(), item@),
            r is Ok,
    {
        let ghost before = self.state();
        let ghost m = item@;
        let location = match &item.location {
            Some(l) => l.clone(),
            None => owned("commandPalette"),
        };
        let mut list = match self.menus.get(location.as_str()) {
            Some(l) => l,
            None => MenuList { items: Vec::new() },
        };
        proof {
            crate::store::lemma_key_index_bounds(before, location@);
            if lookup(before, location@) is Some {
                assert(before[crate::store::key_index(before, location@)].1 == list@);
            } else {
                assert(list@ =~= Seq::<MenuItemView>::empty());
            }
            assert(sorted_menu(list@));
            lemma_sorted_insert_sorted(list@, m);
        }
        insert_sorted(&mut list.items, item);
        self.menus.insert(location, list);
        proof {
            let after = self.state();
            let i = crate::store::key_index(before, item_location(m));
            assert forall|k: int| 0 <= k < after.len() implies sorted_menu(#[trigger] after[k].1) by {
                if k < before.len() && k != i {
                    assert(after[k] == before[k]);
                }
            }
        }
        Ok(())
    }

    /// Registers each of `items` in turn; always succeeds.
    pub fn register_menu_items(&mut self, items: Vec<MenuItem>) -> (r: Result<(), String>)
        requires
            old(self).wf(),
        ensures
            final(self).wf(),
            final(self).state() == register_all(
                old(self).state(),
                items@.map_values(|m: MenuItem| m@),
            ),
            r is Ok,
    {
        let ghost all = items@.map_values(|m: MenuItem| m@);
        let ghost start = self.state();
        let mut rest = items;
        let mut i: usize = 0;
        let n = rest.len();
        let mut rev: Vec<MenuItem> = Vec::new();
        while rest.len() > 0
            invariant
                self.wf(),
                rev@.len() + rest@.len() == n,
                n == all.len(),
                forall|k: int| 0 <= k < rev@.len() ==> (#[trigger] rev@[k])@ == all[n - 1 - k],
                forall|k: int| 0 <= k < rest@.len() ==> (#[trigger] rest@[k])@ == all[k],
                self.state() == start,
            decreases rest@.len(),
        {
            let x = rest.pop().unwrap();
            rev.push(x);
        }
        while rev.len() > 0
            invariant
                self.wf(),
                i + rev@.len() == n,
                n == all.len(),
                forall|k: int| 0 <= k < rev@.len() ==> (#[trigger] rev@[k])@ == all[n - 1 - k],
                self.state() == register_all(start, all.take(i as int)),
            decreases rev@.len(),
        {
            let x = rev.pop().unwrap();
            assert(x@ == all[i as int]);
            assert(all.take(i + 1).drop_last() =~= all.take(i as int));
            let _ = self.register_menu_item(x);
            i = i + 1;
        }
        assert(all.take(n as int) =~= all);
        Ok(())
    }

    /// Copies of the items under `location`, in display order.
    pub fn get_menu_items(&self, location: &str) -> (r: Vec<MenuItem>)
        ensures
            r@.map_values(|m: MenuItem| m@) == listed(self.state(), location@),
    {
        match self.menus.get_ref(location) {
            Some(l) => duplicate_items(&l.items),
            None => {
                let v: Vec<MenuItem> = Vec::new();
                assert(v@.map_values(|m: MenuItem| m@) =~= Seq::<MenuItemView>::empty());
                v
            },
        }
    }

    /// The items under `location` that show in `context`, in display order.
    pub fn get_menu_items_filtered(&self, location: &str, context: &MenuContext) -> (r: Vec<
        MenuItem,
    >)
        ensures
            r@.map_values(|m: MenuItem| m@) == listed(self.state(), location@).filter(
                |m: MenuItemView| item_visible(m, *context),
            ),
    {
        let items = self.get_menu_items(location);
        let ghost s = items@.map_values(|m: MenuItem| m@);
        let ghost p = |m: MenuItemView| item_visible(m, *context);
        let mut out: Vec<MenuItem> = Vec::new();
        let mut i: usize = 0;
        assert(s.take(0).filter(p) =~= Seq::<MenuItemView>::empty()) by {
            reveal(Seq::filter);
        }
        while i < items.len()
            invariant
                i <= items@.len(),
                s == items@.map_values(|m: MenuItem| m@),
                p == (|m: MenuItemView| item_visible(m, *context)),
                out@.map_values(|m: MenuItem| m@) == s.take(i as int).filter(p),
            decreases items@.len() - i,
        {
            assert(s.take(i + 1) =~= s.take(i as int).push(s[i as int]));
            proof {
                s.take(i as int).lemma_filter_push(s[i as int], p);
            }
            let keep = match &items[i].when {
                Some(w) => evaluate_when_clause(w.as_str(), context),
                None => true,
            };
            if keep {
                let c = items[i].duplicate();
                out.push(c);
                assert(out@.map_values(|m: MenuItem| m@) =~= s.take(i as int).filter(p).push(
                    s[i as int],
                ));
            }
            i = i + 1;
        }
        assert(s.take(i as int) =~= s);
        out
    }

    /// Removes every item contributed by `owner`; the locations stay.
    pub fn clear_menu_items_by_owner(&mut self, owner: &str)
        requires
            old(self).wf(),
        ensures
            final(self).wf(),
            final(self).state() == clear_owner_spec(old(self).state(), owner@),
    {
        let ghost before = self.state();
        let ghost p = |m: MenuItemView| m.owner != owner@;
        let n = self.menus.len();
        let mut i: usize = 0;
        while i < n
            invariant
                self.wf(),
                n == before.len(),
                i <= n,
                self.state().len() == n,
                p == (|m: MenuItemView| m.owner != owner@),
                forall|k: int|
                    0 <= k < n ==> (#[trigger] self.state()[k]).0 == before[k].0
                        && self.state()[k].1 == if k < i {
                        before[k].1.filter(p)
                    } else {
                        before[k].1
                    },
            decreases n - i,
        {
            let ghost cur = self.state();
            let (_, list) = self.menus.entry_at(i);
            let ghost s = list@;
            let mut kept: Vec<MenuItem> = Vec::new();
            let mut j: usize = 0;
            assert(s.take(0).filter(p) =~= Seq::<MenuItemView>::empty()) by {
                reveal(Seq::filter);
            }
            while j < list.items.len()
                invariant
                    j <= list.items@.len(),
                    s == list.items@.map_values(|m: MenuItem| m@),
                    p == (|m: MenuItemView| m.owner != owner@),
                    kept@.map_values(|m: MenuItem| m@) == s.take(j as int).filter(p),
                decreases list.items@.len() - j,
            {
                assert(s.take(j + 1) =~= s.take(j as int).push(s[j as int]));
                proof {
                    s.take(j as int).lemma_filter_push(s[j as int], p);
                }
                if !str_eq(list.items[j].owner.as_str(), owner) {
                    let c = list.items[j].duplicate();
                    kept.push(c);
                    assert(kept@.map_values(|m: MenuItem| m@) =~= s.take(j as int).filter(p).push(
                        s[j as int],
                    ));
                }
                j = j + 1;
            }
            assert(s.take(j as int) =~= s);
            proof {
                lemma_filter_sorted(s, p);
            }
            self.menus.set_at(i, MenuList { items: kept });
            proof {
                assert forall|a: int, b: int|
                    0 <= a < self.state().len() && 0 <= b < self.state().len() && a != b implies
                    self.state()[a].0 != self.state()[b].0 by {
                    assert(self.state()[a].0 == cur[a].0);
                    assert(self.state()[b].0 == cur[b].0);
                }
                assert forall|k: int| 0 <= k < self.state().len() implies sorted_menu(
                    #[trigger] self.state()[k].1,
                ) by {
                    if k != i {
                        assert(self.state()[k] == cur[k]);
                    }
                }
            }
            i = i + 1;
        }
        assert(self.state() =~= clear_owner_spec(before, owner@));
    }

    /// The locations that have ever held an item.
    pub fn get_locations(&self) -> (r: Vec<String>)
        ensures
            r@.map_values(|s: String| s@) == crate::store::keys_of(self.state()),
    {
        self.menus.keys()
    }
}

/// Registering an item lists it under its location, and leaves every other
/// location's list as it was.
pub proof fn lemma_register_lists_item(
    state: Seq<(Seq<char>, Seq<MenuItemView>)>,
    m: MenuItemView,
    other: Seq<char>,
)
    requires
        distinct_keys(state),
        all_sorted(state),
    ensures
        listed(register_spec(state, m), item_location(m)).contains(m),
        other != item_location(m) ==> listed(register_spec(state, m), other) == listed(
            state,
            other,
        ),
{
    let loc = item_location(m);
    let list = listed(state, loc);
    crate::store::lemma_key_index_bounds(state, loc);
    if lookup(state, loc) is Some {
        assert(sorted_menu(state[crate::store::key_index(state, loc)].1));
    }
    lemma_sorted_insert_sorted(list, m);
    crate::store::lemma_lookup_insert(state, loc, sorted_insert(list, m), other);
}

/// After an owner's items are cleared, no list holds an item of that owner.
pub proof fn lemma_clear_owner_removes(
    state: Seq<(Seq<char>, Seq<MenuItemView>)>,
    owner: Seq<char>,
    location: Seq<char>,
    m: MenuItemView,
)
    ensures
        listed(clear_owner_spec(state, owner), location).contains(m) ==> m.owner != owner,
{
    broadcast use vstd::seq_lib::group_filter_ensures;

    let p = |x: MenuItemView| x.owner != owner;
    let cleared = clear_owner_spec(state, owner);
    crate::store::lemma_key_index_bounds(cleared, location);
    if listed(cleared, location).contains(m) {
        let i = crate::store::key_index(cleared, location);
        assert(cleared[i].1 == state[i].1.filter(p));
        let k = choose|k: int| 0 <= k < cleared[i].1.len() && cleared[i].1[k] == m;
        assert(p(state[i].1.filter(p)[k]));
    }
}

/// What each when clause a menu item may carry means in a context: the
/// selection, editor focus and explorer focus clauses read exactly that part
/// of the context, whatever the rest holds; the resource clauses hold exactly
/// for a resource with that extension; any other clause holds.
pub proof fn lemma_when_clause_meanings(ctx: MenuContext, w: Seq<char>)
    ensures
        when_holds("editorHasSelection"@, ctx) == ctx.has_selection,
        when_holds("editorTextFocus"@, ctx) == ctx.editor_focused,
        when_holds("explorerViewletFocus"@, ctx) == ctx.explorer_focused,
        when_holds("resourceExtname == .rs"@, ctx) == (opt_view(ctx.resource_extension) == Some("rs"@)),
        when_holds("resourceExtname == .ts"@, ctx) == (opt_view(ctx.resource_extension) == Some("ts"@)),
        when_holds("resourceExtname == .js"@, ctx) == (opt_view(ctx.resource_extension) == Some("js"@)),
        w != "editorHasSelection"@ && w != "editorTextFocus"@ && w != "explorerViewletFocus"@ && w
            != "resourceExtname == .rs"@ && w != "resourceExtname == .ts"@ && w != "resourceExtname == .js"@
            ==> when_holds(w, ctx),
{
    reveal_strlit("editorHasSelection");
    reveal_strlit("editorTextFocus");
    reveal_strlit("explorerViewletFocus");
    reveal_strlit("resourceExtname == .rs");
    reveal_strlit("resourceExtname == .ts");
    reveal_strlit("resourceExtname == .js");
    assert("editorHasSelection"@.len() == 18);
    assert("editorTextFocus"@.len() == 15);
    assert("explorerViewletFocus"@.len() == 20);
    assert("resourceExtname == .rs"@.len() == 22);
    assert("resourceExtname == .ts"@.len() == 22);
    assert("resourceExtname == .js"@.len() == 22);
    assert("resourceExtname == .rs"@[20] == 'r');
    assert("resourceExtname == .ts"@[20] == 't');
    assert("resourceExtname == .js"@[20] == 'j');
}

} // verus!
