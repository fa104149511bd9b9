//! Reading an extension manifest's `contributes` section: the commands,
//! keybindings and menu items that an extension adds to the editor.
use vstd::prelude::*;
use crate::json::{JsonValue, JsonView, json_get, json_str, member_lookup, array_views, lemma_view_array, lemma_view_object, member_views};
use crate::text::{opt_view, owned, concat};

verus! {

/// The string under `key` in `obj`, when `obj` is an object holding a string there.
pub open spec fn str_field(obj: JsonView, key: Seq<char>) -> Option<Seq<char>> {
    json_str(json_get(obj, key))
}

/// An icon: a string, or the `dark` (else the `light`) entry of a themed icon.
pub open spec fn icon_spec(v: Option<JsonView>) -> Option<Seq<char>> {
    match v {
        Some(JsonView::Str(s)) => Some(s),
        Some(JsonView::Object(m)) => match member_lookup(m, "dark"@) {
            Some(d) => json_str(Some(d)),
            None => json_str(member_lookup(m, "light"@)),
        },
        _ => None,
    }
}

/// The string under `key` in `obj`, copied.
pub fn string_field(obj: &JsonValue, key: &str) -> (r: Option<String>)
    ensures
        opt_view(r) == str_field(obj@, key@),
{
    match obj.get(key) {
        Some(v) => match v.as_str() {
            Some(s) => Some(owned(s)),
            None => None,
        },
        None => None,
    }
}

/// The icon under `key` in `obj`.
pub fn icon_field(obj: &JsonValue, key: &str) -> (r: Option<String>)
    ensures
        opt_view(r) == icon_spec(json_get(obj@, key@)),
{
    match obj.get(key) {
        Some(v) => {
            match v {
                JsonValue::Str(s) => Some(s.clone()),
                JsonValue::Object(members) => {
                    proof {
                        lemma_view_object(*members);
                    }
                    let chosen = match v.get("dark") {
                        Some(d) => Some(d),
                        None => v.get("light"),
                    };
                    match chosen {
                        Some(c) => match c.as_str() {
                            Some(s) => Some(owned(s)),
                            None => None,
                        },
                        None => None,
                    }
                },
                _ => None,
            }
        },
        None => None,
    }
}

/// A command an extension declares, with the label menus show for it.
pub struct CommandContribution {
    pub command: String,
    pub title: String,
    pub category: Option<String>,
    pub icon: Option<String>,
}

/// Mathematical form of a [`CommandContribution`].
pub struct CommandContributionView {
    pub command: Seq<char>,
    pub title: Seq<char>,
    pub category: Option<Seq<char>>,
    pub icon: Option<Seq<char>>,
}

impl View for CommandContribution {
    type V = CommandContributionView;

    open spec fn view(&self) -> CommandContributionView {
        CommandContributionView {
            command: self.command@,
            title: self.title@,
            category: opt_view(self.category),
            icon: opt_view(self.icon),
        }
    }
}

/// One entry of `contributes.commands`, or why it is refused.
pub open spec fn command_entry(v: JsonView) -> Result<CommandContributionView, Seq<char>> {
    if !(v is Object) {
        Err("Command must be an object"@)
    } else if str_field(v, "command"@) is None {
        Err("Command must have a command field"@)
    } else if str_field(v, "title"@) is None {
        Err("Command must have a title"@)
    } else {
        Ok(
            CommandContributionView {
                command: str_field(v, "command"@).unwrap(),
                title: str_field(v, "title"@).unwrap(),
                category: str_field(v, "category"@),
                icon: icon_spec(json_get(v, "icon"@)),
            },
        )
    }
}

/// The entries read from `items` before the first refused one, and its error.
pub open spec fn command_entries(items: Seq<JsonView>) -> (Seq<CommandContributionView>, Option<Seq<char>>)
    decreases items.len(),
{
    if items.len() == 0 {
        (Seq::empty(), None)
    } else {
        let prev = command_entries(items.drop_last());
        if prev.1 is Some {
            prev
        } else {
            match command_entry(items.last()) {
                Ok(c) => (prev.0.push(c), None),
                Err(e) => (prev.0, Some(e)),
            }
        }
    }
}

/// Once an entry is refused, later entries change nothing.
proof fn lemma_command_error_stays(items: Seq<JsonView>, k: int)
    requires
        0 <= k <= items.len(),
        command_entries(items.take(k)).1 is Some,
    ensures
        command_entries(items) == command_entries(items.take(k)),
    decreases items.len() - k,
{
    if k < items.len() {
        assert(items.take(k + 1).drop_last() =~= items.take(k));
        lemma_command_error_stays(items, k + 1);
    } else {
        assert(items.take(k) =~= items);
    }
}

/// What a manifest's `contributes.commands` yields.
pub open spec fn command_contributions(pkg: JsonView) -> Result<Seq<CommandContributionView>, Seq<char>> {
    match json_get(pkg, "contributes"@) {
        None => Err("No contributes section in package.json"@),
        Some(c) => match json_get(c, "commands"@) {
            None => Ok(Seq::empty()),
            Some(JsonView::Array(items)) => {
                let parsed = command_entries(items);
                match parsed.1 {
                    Some(e) => Err(e),
                    None => Ok(parsed.0),
                }
            },
            Some(_) => Err("Commands must be an array"@),
        },
    }
}

/// Reads one entry of `contributes.commands`.
fn read_command_entry(v: &JsonValue) -> (r: Result<CommandContribution, String>)
    ensures
        match r {
            Ok(c) => command_entry(v@) == Ok::<CommandContributionView, Seq<char>>(c@),
            Err(e) => command_entry(v@) == Err::<CommandContributionView, Seq<char>>(e@),
        },
{
    if !matches!(v, JsonValue::Object(_)) {
        return Err(owned("Command must be an object"));
    }
    let command = match string_field(v, "command") {
        Some(c) => c,
        None => return Err(owned("Command must have a command field")),
    };
    let title = match string_field(v, "title") {
        Some(t) => t,
        None => return Err(owned("Command must have a title")),
    };
    let category = string_field(v, "category");
    let icon = icon_field(v, "icon");
    Ok(CommandContribution { command, title, category, icon })
}

/// The commands an extension manifest declares, in order, with their titles;
/// the first malformed entry fails the whole list.
pub fn parse_command_contributions(package_json: JsonValue) -> (r: Result<Vec<CommandContribution>, String>)
    ensures
        match r {
            Ok(cs) => command_contributions(package_json@) == Ok::<Seq<CommandContributionView>, Seq<char>>(
                cs@.map_values(|c: CommandContribution| c@),
            ),
            Err(e) => command_contributions(package_json@) == Err::<Seq<CommandContributionView>, Seq<char>>(e@),
        },
{
    let contributes = match package_json.get("contributes") {
        Some(c) => c,
        None => return Err(owned("No contributes section in package.json")),
    };
    let commands = match contributes.get("commands") {
        Some(c) => c,
        None => {
            let empty: Vec<CommandContribution> = Vec::new();
            assert(empty@.map_values(|c: CommandContribution| c@) =~= Seq::<CommandContributionView>::empty());
            return Ok(empty);
        },
    };
    let items = match commands {
        JsonValue::Array(items) => items,
        _ => return Err(owned("Commands must be an array")),
    };
    proof {
        lemma_view_array(*items);
    }
    let ghost all = array_views(items@);
    let mut out: Vec<CommandContribution> = Vec::new();
    let mut i: usize = 0;
    assert(all.take(0) =~= Seq::<JsonView>::empty());
    while i < items.len()
        invariant
            i <= items@.len(),
            all == array_views(items@),
            commands@ == JsonView::Array(all),
            json_get(package_json@, "contributes"@) == Some(contributes@),
            json_get(contributes@, "commands"@) == Some(commands@),
            out@.len() == i,
            command_entries(all.take(i as int)) == (
                out@.map_values(|c: CommandContribution| c@),
                None::<Seq<char>>,
            ),
        decreases items@.len() - i,
    {
        let ghost before = out@.map_values(|c: CommandContribution| c@);
        assert(all.take(i + 1).drop_last() =~= all.take(i as int));
        assert(all.take(i + 1).last() == items@[i as int]@);
        match read_command_entry(&items[i]) {
            Ok(c) => {
                out.push(c);
                assert(out@.map_values(|c: CommandContribution| c@) =~= before.push(out@[i as int]@));
            },
            Err(e) => {
                proof {
                    lemma_command_error_stays(all, i + 1);
                }
                return Err(e);
            },
        }
        i = i + 1;
    }
    assert(all.take(items@.len() as int) =~= all);
    Ok(out)
}

} // verus!

verus! {

use crate::keybindings::{Keybinding, KeybindingView, KeybindingRegistry, register_all_kb};

/// The key a binding uses on `platform`, and the platform it is then bound
/// to: the `mac`, `win` or `linux` key where the entry gives one for that
/// platform, else the plain key for every platform.
pub open spec fn platform_choice(v: JsonView, platform: Seq<char>) -> (Seq<char>, Option<Seq<char>>) {
    let plain = (str_field(v, "key"@).unwrap(), None::<Seq<char>>);
    if platform == "macos"@ && str_field(v, "mac"@) is Some {
        (str_field(v, "mac"@).unwrap(), Some("macos"@))
    } else if platform == "windows"@ && str_field(v, "win"@) is Some {
        (str_field(v, "win"@).unwrap(), Some("windows"@))
    } else if platform == "linux"@ && str_field(v, "linux"@) is Some {
        (str_field(v, "linux"@).unwrap(), Some("linux"@))
    } else {
        plain
    }
}

/// One entry of `contributes.keybindings` read for `platform`, or why it is refused.
pub open spec fn keybinding_entry(v: JsonView, owner: Seq<char>, platform: Seq<char>) -> Result<
    KeybindingView,
    Seq<char>,
> {
    if !(v is Object) {
        Err("Keybinding must be an object"@)
    } else if str_field(v, "command"@) is None {
        Err("Keybinding must have a command"@)
    } else if str_field(v, "key"@) is None {
        Err("Keybinding must have a key"@)
    } else {
        Ok(
            KeybindingView {
                command: str_field(v, "command"@).unwrap(),
                key: platform_choice(v, platform).0,
                when: str_field(v, "when"@),
                platform: platform_choice(v, platform).1,
                owner,
                args: json_get(v, "args"@),
            },
        )
    }
}

/// The bindings read from `items` before the first refused one, and its error.
pub open spec fn keybinding_entries(items: Seq<JsonView>, owner: Seq<char>, platform: Seq<char>) -> (
    Seq<KeybindingView>,
    Option<Seq<char>>,
)
    decreases items.len(),
{
    if items.len() == 0 {
        (Seq::empty(), None)
    } else {
        let prev = keybinding_entries(items.drop_last(), owner, platform);
        if prev.1 is Some {
            prev
        } else {
            match keybinding_entry(items.last(), owner, platform) {
                Ok(kb) => (prev.0.push(kb), None),
                Err(e) => (prev.0, Some(e)),
            }
        }
    }
}

proof fn lemma_keybinding_error_stays(items: Seq<JsonView>, owner: Seq<char>, platform: Seq<char>, k: int)
    requires
        0 <= k <= items.len(),
        keybinding_entries(items.take(k), owner, platform).1 is Some,
    ensures
        keybinding_entries(items, owner, platform) == keybinding_entries(items.take(k), owner, platform),
    decreases items.len() - k,
{
    if k < items.len() {
        assert(items.take(k + 1).drop_last() =~= items.take(k));
        lemma_keybinding_error_stays(items, owner, platform, k + 1);
    } else {
        assert(items.take(k) =~= items);
    }
}

/// What a manifest's `contributes.keybindings` yields for `platform`: the
/// bindings registered, and the error that stopped the reading, if any.
pub open spec fn keybinding_contributions(pkg: JsonView, owner: Seq<char>, platform: Seq<char>) -> (
    Seq<KeybindingView>,
    Option<Seq<char>>,
) {
    match json_get(pkg, "contributes"@) {
        None => (Seq::empty(), Some("No contributes section in package.json"@)),
        Some(c) => match json_get(c, "keybindings"@) {
            None => (Seq::empty(), None),
            Some(JsonView::Array(items)) => keybinding_entries(items, owner, platform),
            Some(_) => (Seq::empty(), Some("Keybindings must be an array"@)),
        },
    }
}

/// Reads one entry of `contributes.keybindings` for `platform`.
fn read_keybinding_entry(v: &JsonValue, owner: &str, platform: &str) -> (r: Result<Keybinding, String>)
    ensures
        match r {
            Ok(kb) => keybinding_entry(v@, owner@, platform@) == Ok::<KeybindingView, Seq<char>>(kb@),
            Err(e) => keybinding_entry(v@, owner@, platform@) == Err::<KeybindingView, Seq<char>>(e@),
        },
{
    if !matches!(v, JsonValue::Object(_)) {
        return Err(owned("Keybinding must be an object"));
    }
    let command = match string_field(v, "command") {
        Some(c) => c,
        None => return Err(owned("Keybinding must have a command")),
    };
    let key = match string_field(v, "key") {
        Some(k) => k,
        None => return Err(owned("Keybinding must have a key")),
    };
    let when = string_field(v, "when");
    let mut chosen_platform: Option<String> = None;
    let mut chosen_key = key;
    let mac = string_field(v, "mac");
    let win = string_field(v, "win");
    let linux = string_field(v, "linux");
    if crate::text::str_eq(platform, "macos") && mac.is_some() {
        chosen_key = mac.unwrap();
        chosen_platform = Some(owned("macos"));
    } else if crate::text::str_eq(platform, "windows") && win.is_some() {
        chosen_key = win.unwrap();
        chosen_platform = Some(owned("windows"));
    } else if crate::text::str_eq(platform, "linux") && linux.is_some() {
        chosen_key = linux.unwrap();
        chosen_platform = Some(owned("linux"));
    }
    let args = match v.get("args") {
        Some(a) => Some(a.duplicate()),
        None => None,
    };
    Ok(Keybinding { command, key: chosen_key, when, platform: chosen_platform, owner: owned(owner), args })
}

/// Registers the keybindings an extension manifest contributes, for the
/// registry's platform, and returns how many entries were read. An entry
/// that is malformed stops the reading with its error; the entries before
/// it stay registered.
pub fn parse_and_register_extension_keybindings(
    extension_id: String,
    package_json: JsonValue,
    keybinding_registry: &mut KeybindingRegistry,
) -> (r: Result<usize, String>)
    requires
        old(keybinding_registry).wf(),
    ensures
        final(keybinding_registry).wf(),
        final(keybinding_registry).platform_name() == old(keybinding_registry).platform_name(),
        final(keybinding_registry).state() == register_all_kb(
            old(keybinding_registry).state(),
            old(keybinding_registry).platform_name(),
            keybinding_contributions(package_json@, extension_id@, old(keybinding_registry).platform_name()).0,
        ),
        match r {
            Ok(n) => keybinding_contributions(package_json@, extension_id@, old(keybinding_registry).platform_name()).1 is None
                && n == keybinding_contributions(package_json@, extension_id@, old(keybinding_registry).platform_name()).0.len(),
            Err(e) => keybinding_contributions(package_json@, extension_id@, old(keybinding_registry).platform_name()).1
                == Some(e@),
        },
{
    let ghost start = keybinding_registry.state();
    let ghost plat = keybinding_registry.platform_name();
    let ghost owner = extension_id@;
    let contributes = match package_json.get("contributes") {
        Some(c) => c,
        None => return Err(owned("No contributes section in package.json")),
    };
    let keybindings = match contributes.get("keybindings") {
        Some(k) => k,
        None => return Ok(0),
    };
    let items = match keybindings {
        JsonValue::Array(items) => items,
        _ => return Err(owned("Keybindings must be an array")),
    };
    proof {
        lemma_view_array(*items);
    }
    let platform = keybinding_registry.get_platform();
    let ghost all = array_views(items@);
    let ghost mut done: Seq<KeybindingView> = Seq::empty();
    let mut count: usize = 0;
    assert(all.take(0) =~= Seq::<JsonView>::empty());
    while count < items.len()
        invariant
            count <= items@.len(),
            all == array_views(items@),
            keybindings@ == JsonView::Array(all),
            json_get(package_json@, "contributes"@) == Some(contributes@),
            json_get(contributes@, "keybindings"@) == Some(keybindings@),
            platform@ == plat,
            owner == extension_id@,
            start == old(keybinding_registry).state(),
            plat == old(keybinding_registry).platform_name(),
            keybinding_registry.wf(),
            keybinding_registry.platform_name() == plat,
            done.len() == count,
            keybinding_entries(all.take(count as int), owner, plat) == (done, None::<Seq<char>>),
            keybinding_registry.state() == register_all_kb(start, plat, done),
        decreases items@.len() - count,
    {
        assert(all.take(count + 1).drop_last() =~= all.take(count as int));
        assert(all.take(count + 1).last() == items@[count as int]@);
        match read_keybinding_entry(&items[count], extension_id.as_str(), platform.as_str()) {
            Ok(kb) => {
                proof {
                    assert(done.push(kb@).drop_last() =~= done);
                    done = done.push(kb@);
                }
                let _ = keybinding_registry.register_keybinding(kb);
            },
            Err(e) => {
                proof {
                    lemma_keybinding_error_stays(all, owner, plat, count + 1);
                }
                return Err(e);
            },
        }
        count = count + 1;
    }
    assert(all.take(items@.len() as int) =~= all);
    Ok(count)
}

} // verus!

verus! {

use crate::menus::{MenuItem, MenuItemView, MenuRegistry, register_all};

/// One item of a location's list in `contributes.menus`, or why it is refused.
pub open spec fn menu_entry(v: JsonView, location: Seq<char>, owner: Seq<char>) -> Result<MenuItemView, Seq<char>> {
    if !(v is Object) {
        Err("Menu item must be an object"@)
    } else if str_field(v, "command"@) is None {
        Err("Menu item must have a command"@)
    } else {
        Ok(
            MenuItemView {
                command: str_field(v, "command"@).unwrap(),
                location: Some(location),
                when: str_field(v, "when"@),
                group: str_field(v, "group"@),
                title: str_field(v, "title"@),
                icon: icon_spec(json_get(v, "icon"@)),
                owner,
                alt: str_field(v, "alt"@),
            },
        )
    }
}

/// The items read from one location's list before the first refused one, and its error.
pub open spec fn menu_entries(items: Seq<JsonView>, location: Seq<char>, owner: Seq<char>) -> (
    Seq<MenuItemView>,
    Option<Seq<char>>,
)
    decreases items.len(),
{
    if items.len() == 0 {
        (Seq::empty(), None)
    } else {
        let prev = menu_entries(items.drop_last(), location, owner);
        if prev.1 is Some {
            prev
        } else {
            match menu_entry(items.last(), location, owner) {
                Ok(m) => (prev.0.push(m), None),
                Err(e) => (prev.0, Some(e)),
            }
        }
    }
}

proof fn lemma_menu_error_stays(items: Seq<JsonView>, location: Seq<char>, owner: Seq<char>, k: int)
    requires
        0 <= k <= items.len(),
        menu_entries(items.take(k), location, owner).1 is Some,
    ensures
        menu_entries(items, location, owner) == menu_entries(items.take(k), location, owner),
    decreases items.len() - k,
{
    if k < items.len() {
        assert(items.take(k + 1).drop_last() =~= items.take(k));
        lemma_menu_error_stays(items, location, owner, k + 1);
    } else {
        assert(items.take(k) =~= items);
    }
}

proof fn lemma_menu_entries_grow(items: Seq<JsonView>, location: Seq<char>, owner: Seq<char>, k: int)
    requires
        0 <= k <= items.len(),
    ensures
        menu_entries(items.take(k), location, owner).0.len() <= menu_entries(items, location, owner).0.len(),
    decreases items.len() - k,
{
    if k < items.len() {
        assert(items.take(k + 1).drop_last() =~= items.take(k));
        lemma_menu_entries_grow(items, location, owner, k + 1);
    } else {
        assert(items.take(k) =~= items);
    }
}

/// The items read from the locations of `contributes.menus`, in order, before
/// the first refused list or item, and its error.
pub open spec fn menu_locations(members: Seq<(Seq<char>, JsonView)>, owner: Seq<char>) -> (
    Seq<MenuItemView>,
    Option<Seq<char>>,
)
    decreases members.len(),
{
    if members.len() == 0 {
        (Seq::empty(), None)
    } else {
        let prev = menu_locations(members.drop_last(), owner);
        if prev.1 is Some {
            prev
        } else {
            let location = members.last().0;
            match members.last().1 {
                JsonView::Array(items) => {
                    let more = menu_entries(items, location, owner);
                    (prev.0 + more.0, more.1)
                },
                _ => (prev.0, Some("Menu items for "@ + location + " must be an array"@)),
            }
        }
    }
}

proof fn lemma_location_error_stays(members: Seq<(Seq<char>, JsonView)>, owner: Seq<char>, k: int)
    requires
        0 <= k <= members.len(),
        menu_locations(members.take(k), owner).1 is Some,
    ensures
        menu_locations(members, owner) == menu_locations(members.take(k), owner),
    decreases members.len() - k,
{
    if k < members.len() {
        assert(members.take(k + 1).drop_last() =~= members.take(k));
        lemma_location_error_stays(members, owner, k + 1);
    } else {
        assert(members.take(k) =~= members);
    }
}

proof fn lemma_locations_grow(members: Seq<(Seq<char>, JsonView)>, owner: Seq<char>, k: int)
    requires
        0 <= k <= members.len(),
    ensures
        menu_locations(members.take(k), owner).0.len() <= menu_locations(members, owner).0.len(),
    decreases members.len() - k,
{
    if k < members.len() {
        assert(members.take(k + 1).drop_last() =~= members.take(k));
        lemma_locations_grow(members, owner, k + 1);
    } else {
        assert(members.take(k) =~= members);
    }
}

/// What a manifest's `contributes.menus` yields: the items registered, and
/// the error that stopped the reading, if any.
pub open spec fn menu_contributions(pkg: JsonView, owner: Seq<char>) -> (Seq<MenuItemView>, Option<Seq<char>>) {
    match json_get(pkg, "contributes"@) {
        None => (Seq::empty(), Some("No contributes section in package.json"@)),
        Some(c) => match json_get(c, "menus"@) {
            None => (Seq::empty(), None),
            Some(JsonView::Object(members)) => menu_locations(members, owner),
            Some(_) => (Seq::empty(), Some("Menus must be an object"@)),
        },
    }
}

/// Reads one menu item listed under `location`.
fn read_menu_entry(v: &JsonValue, location: &str, owner: &str) -> (r: Result<MenuItem, String>)
    ensures
        match r {
            Ok(m) => menu_entry(v@, location@, owner@) == Ok::<MenuItemView, Seq<char>>(m@),
            Err(e) => menu_entry(v@, location@, owner@) == Err::<MenuItemView, Seq<char>>(e@),
        },
{
    if !matches!(v, JsonValue::Object(_)) {
        return Err(owned("Menu item must be an object"));
    }
    let command = match string_field(v, "command") {
        Some(c) => c,
        None => return Err(owned("Menu item must have a command")),
    };
    Ok(
        MenuItem {
            command,
            location: Some(owned(location)),
            when: string_field(v, "when"),
            group: string_field(v, "group"),
            title: string_field(v, "title"),
            icon: icon_field(v, "icon"),
            owner: owned(owner),
            alt: string_field(v, "alt"),
        },
    )
}

/// Registers the menu items of one location's list, continuing `done`.
fn register_location_items(
    items: &Vec<JsonValue>,
    location: &str,
    owner: &str,
    menu_registry: &mut MenuRegistry,
    Ghost(start): Ghost<Seq<(Seq<char>, Seq<MenuItemView>)>>,
    Ghost(done): Ghost<Seq<MenuItemView>>,
    count: usize,
) -> (r: (usize, Option<String>))
    requires
        old(menu_registry).wf(),
        old(menu_registry).state() == register_all(start, done),
        count == done.len(),
        done.len() + menu_entries(array_views(items@), location@, owner@).0.len() <= usize::MAX,
    ensures
        final(menu_registry).wf(),
        final(menu_registry).state() == register_all(
            start,
            done + menu_entries(array_views(items@), location@, owner@).0,
        ),
        r.0 == count + menu_entries(array_views(items@), location@, owner@).0.len(),
        match r.1 {
            None => menu_entries(array_views(items@), location@, owner@).1 is None,
            Some(e) => menu_entries(array_views(items@), location@, owner@).1 == Some(e@),
        },
{
    let ghost all = array_views(items@);
    let ghost mut got: Seq<MenuItemView> = Seq::empty();
    let mut n = count;
    let mut j: usize = 0;
    assert(all.take(0) =~= Seq::<JsonView>::empty());
    assert(done + got =~= done);
    while j < items.len()
        invariant
            j <= items@.len(),
            all == array_views(items@),
            menu_registry.wf(),
            got.len() == j,
            count == done.len(),
            n == count + j,
            done.len() + menu_entries(all, location@, owner@).0.len() <= usize::MAX,
            menu_entries(all.take(j as int), location@, owner@) == (got, None::<Seq<char>>),
            menu_registry.state() == register_all(start, done + got),
        decreases items@.len() - j,
    {
        assert(all.take(j + 1).drop_last() =~= all.take(j as int));
        assert(all.take(j + 1).last() == items@[j as int]@);
        match read_menu_entry(&items[j], location, owner) {
            Ok(m) => {
                proof {
                    assert((done + got).push(m@) =~= done + got.push(m@));
                    assert((done + got).push(m@).drop_last() =~= done + got);
                    got = got.push(m@);
                }
                let _ = menu_registry.register_menu_item(m);
                proof {
                    lemma_menu_entries_grow(all, location@, owner@, j + 1);
                }
            },
            Err(e) => {
                proof {
                    lemma_menu_error_stays(all, location@, owner@, j + 1);
                }
                return (n, Some(e));
            },
        }
        n = n + 1;
        j = j + 1;
    }
    assert(all.take(items@.len() as int) =~= all);
    (n, None)
}

/// Registers the menu items an extension manifest contributes, location by
/// location, and returns how many were read. A list or item that is
/// malformed stops the reading with its error; the items before it stay
/// registered.
pub fn parse_and_register_extension_menus(
    extension_id: String,
    package_json: JsonValue,
    menu_registry: &mut MenuRegistry,
) -> (r: Result<usize, String>)
    requires
        old(menu_registry).wf(),
        menu_contributions(package_json@, extension_id@).0.len() <= usize::MAX,
    ensures
        final(menu_registry).wf(),
        final(menu_registry).state() == register_all(
            old(menu_registry).state(),
            menu_contributions(package_json@, extension_id@).0,
        ),
        match r {
            Ok(n) => menu_contributions(package_json@, extension_id@).1 is None
                && n == menu_contributions(package_json@, extension_id@).0.len(),
            Err(e) => menu_contributions(package_json@, extension_id@).1 == Some(e@),
        },
{
    let ghost start = menu_registry.state();
    let ghost owner = extension_id@;
    let contributes = match package_json.get("contributes") {
        Some(c) => c,
        None => return Err(owned("No contributes section in package.json")),
    };
    let menus = match contributes.get("menus") {
        Some(m) => m,
        None => return Ok(0),
    };
    let members = match menus {
        JsonValue::Object(members) => members,
        _ => return Err(owned("Menus must be an object")),
    };
    proof {
        lemma_view_object(*members);
    }
    let ghost all = member_views(members@);
    let ghost mut done: Seq<MenuItemView> = Seq::empty();
    let mut count: usize = 0;
    let mut m: usize = 0;
    assert(all.take(0) =~= Seq::<(Seq<char>, JsonView)>::empty());
    while m < members.len()
        invariant
            m <= members@.len(),
            all == member_views(members@),
            menus@ == JsonView::Object(all),
            json_get(package_json@, "contributes"@) == Some(contributes@),
            json_get(contributes@, "menus"@) == Some(menus@),
            owner == extension_id@,
            start == old(menu_registry).state(),
            menu_registry.wf(),
            count == done.len(),
            menu_locations(all, owner).0.len() <= usize::MAX,
            menu_locations(all.take(m as int), owner) == (done, None::<Seq<char>>),
            menu_registry.state() == register_all(start, done),
        decreases members@.len() - m,
    {
        assert(all.take(m + 1).drop_last() =~= all.take(m as int));
        assert(all.take(m + 1).last() == (members@[m as int].0@, members@[m as int].1@));
        let location = &members[m].0;
        let items = match &members[m].1 {
            JsonValue::Array(items) => items,
            _ => {
                let msg = concat(concat("Menu items for ", location.as_str()).as_str(), " must be an array");
                proof {
                    lemma_location_error_stays(all, owner, m + 1);
                }
                return Err(msg);
            },
        };
        proof {
            lemma_view_array(*items);
            lemma_locations_grow(all, owner, m + 1);
        }
        let (n, err) = register_location_items(
            items,
            location.as_str(),
            extension_id.as_str(),
            menu_registry,
            Ghost(start),
            Ghost(done),
            count,
        );
        proof {
            done = done + menu_entries(array_views(items@), location@, owner).0;
        }
        count = n;
        match err {
            Some(e) => {
                proof {
                    lemma_location_error_stays(all, owner, m + 1);
                }
                return Err(e);
            },
            None => {},
        }
        m = m + 1;
    }
    assert(all.take(members@.len() as int) =~= all);
    Ok(count)
}

} // verus!
