//! Settings: the schemas extensions declare, the values of each scope, and
//! how a value is looked up across scopes.
use vstd::prelude::*;
use crate::store::{Duplicate, Store, views, duplicate_all, lookup, store_insert, distinct_keys, keys_of};
use crate::text::{concat, starts_with, starts_with_spec, str_eq, with_char};
use crate::json::{JsonValue, JsonView, json_equal, type_name_spec, array_views};
use crate::render::{debug_list, serde_debug_list};
use crate::textdocument::CoreError;

verus! {

#[derive(Clone, Copy, Debug, PartialEq, Eq, Hash, Structural)]
pub enum ConfigurationScope {
    User,
    Workspace,
    WorkspaceFolder,
}

/// What an extension declares about one setting.
pub struct ConfigurationSchema {
    pub key: String,
    pub scope: ConfigurationScope,
    /// A JSON type name, or `any`.
    pub value_type: String,
    pub default: JsonValue,
    pub description: String,
    pub enum_values: Option<Vec<JsonValue>>,
}

/// Mathematical form of a [`ConfigurationSchema`].
pub struct SchemaView {
    pub key: Seq<char>,
    pub scope: ConfigurationScope,
    pub value_type: Seq<char>,
    pub default: JsonView,
    pub description: Seq<char>,
    pub enum_values: Option<Seq<JsonView>>,
}

/// The settings an extension contributes.
pub struct ConfigurationContribution {
    pub extension_id: String,
    pub title: String,
    pub properties: Vec<ConfigurationSchema>,
}

/// Settings that changed in a scope.
pub struct ConfigurationChangeEvent {
    pub affected_keys: Vec<String>,
    pub scope: ConfigurationScope,
}

/// A setting's value with where it came from.
pub struct ConfigurationValue {
    pub key: String,
    pub value: JsonValue,
    pub scope: ConfigurationScope,
    pub default_value: Option<JsonValue>,
}

impl View for ConfigurationSchema {
    type V = SchemaView;

    open spec fn view(&self) -> SchemaView {
        SchemaView {
            key: self.key@,
            scope: self.scope,
            value_type: self.value_type@,
            default: self.default@,
            description: self.description@,
            enum_values: match self.enum_values {
                Some(v) => Some(array_views(v@)),
                None => None,
            },
        }
    }
}

impl Duplicate for ConfigurationSchema {
    fn duplicate(&self) -> (r: Self) {
        let enum_values = match &self.enum_values {
            Some(v) => {
                let c = duplicate_all(v);
                assert(array_views(c@) =~= array_views(v@));
                Some(c)
            },
            None => None,
        };
        ConfigurationSchema {
            key: self.key.clone(),
            scope: self.scope,
            value_type: self.value_type.clone(),
            default: self.default.duplicate(),
            description: self.description.clone(),
            enum_values,
        }
    }
}

/// Why a value does not fit its schema, if it does not: a type other than
/// the declared one (unless `any`), or a value outside the declared set.
pub open spec fn schema_problem(value: JsonView, schema: SchemaView) -> Option<Seq<char>> {
    if schema.value_type != "any"@ && schema.value_type != type_name_spec(value) {
        Some(
            "Invalid type for "@ + schema.key + ": expected "@ + schema.value_type + ", got "@
                + type_name_spec(value),
        )
    } else {
        match schema.enum_values {
            Some(vals) => if vals.contains(value) {
                None
            } else {
                Some("Invalid value for "@ + schema.key + ": must be one of "@ + serde_debug_list(vals))
            },
            None => None,
        }
    }
}

/// Checks a value against its schema.
pub fn validate_value(value: &JsonValue, schema: &ConfigurationSchema) -> (r: Result<(), CoreError>)
    ensures
        match schema_problem(value@, schema@) {
            None => r is Ok,
            Some(m) => r matches Err(CoreError::Config(got)) && got@ == m,
        },
{
    let vt = value.value_type();
    if !str_eq(schema.value_type.as_str(), "any") && !str_eq(schema.value_type.as_str(), vt) {
        let a = concat("Invalid type for ", schema.key.as_str());
        let b = concat(a.as_str(), ": expected ");
        let c = concat(b.as_str(), schema.value_type.as_str());
        let d = concat(c.as_str(), ", got ");
        return Err(CoreError::Config(concat(d.as_str(), vt)));
    }
    if let Some(vals) = &schema.enum_values {
        let mut found = false;
        let mut i: usize = 0;
        while i < vals.len()
            invariant
                i <= vals@.len(),
                found == exists|k: int| 0 <= k < i && (#[trigger] vals@[k])@ == value@,
            decreases vals@.len() - i,
        {
            if json_equal(&vals[i], value) {
                found = true;
            }
            i = i + 1;
        }
        proof {
            let av = array_views(vals@);
            if found {
                let k = choose|k: int| 0 <= k < i && (#[trigger] vals@[k])@ == value@;
                assert(av[k] == value@);
            } else {
                assert forall|k: int| 0 <= k < av.len() implies av[k] != value@ by {
                    assert(av[k] == vals@[k]@);
                }
            }
        }
        if !found {
            let listed = debug_list(vals);
            let a = concat("Invalid value for ", schema.key.as_str());
            let b = concat(a.as_str(), ": must be one of ");
            return Err(CoreError::Config(concat(b.as_str(), listed.as_str())));
        }
    }
    Ok(())
}

/// The value a scope reads: the folder scope reads the workspace's values.
pub open spec fn scope_value(
    user: Seq<(Seq<char>, JsonView)>,
    workspace: Seq<(Seq<char>, JsonView)>,
    key: Seq<char>,
    scope: ConfigurationScope,
) -> Option<JsonView> {
    match scope {
        ConfigurationScope::User => lookup(user, key),
        _ => lookup(workspace, key),
    }
}

/// The value a key resolves to from a scope: the scope's own, then the
/// workspace's (from a folder), then the user's, then the schema default.
pub open spec fn resolved_value(
    schemas: Seq<(Seq<char>, SchemaView)>,
    user: Seq<(Seq<char>, JsonView)>,
    workspace: Seq<(Seq<char>, JsonView)>,
    key: Seq<char>,
    scope: ConfigurationScope,
) -> Option<JsonView> {
    if scope_value(user, workspace, key, scope) is Some {
        scope_value(user, workspace, key, scope)
    } else if scope == ConfigurationScope::WorkspaceFolder && lookup(workspace, key) is Some {
        lookup(workspace, key)
    } else if scope != ConfigurationScope::User && lookup(user, key) is Some {
        lookup(user, key)
    } else {
        match lookup(schemas, key) {
            Some(s) => Some(s.default),
            None => None,
        }
    }
}

/// Setting schemas by key, and the user's and the workspace's values.
pub struct ConfigurationRegistry {
    schemas: Store<ConfigurationSchema>,
    user_settings: Store<JsonValue>,
    workspace_settings: Store<JsonValue>,
}

impl ConfigurationRegistry {
    pub closed spec fn schemas(&self) -> Seq<(Seq<char>, SchemaView)> {
        self.schemas.entries()
    }

    pub closed spec fn user(&self) -> Seq<(Seq<char>, JsonView)> {
        self.user_settings.entries()
    }

    pub closed spec fn workspace(&self) -> Seq<(Seq<char>, JsonView)> {
        self.workspace_settings.entries()
    }

    pub open spec fn wf(&self) -> bool {
        &&& distinct_keys(self.schemas())
        &&& distinct_keys(self.user())
        &&& distinct_keys(self.workspace())
    }

    pub fn new() -> (r: Self)
        ensures
            r.wf(),
            r.schemas().len() == 0,
            r.user().len() == 0,
            r.workspace().len() == 0,
    {
        ConfigurationRegistry { schemas: Store::new(), user_settings: Store::new(), workspace_settings: Store::new() }
    }

    /// Records each schema of a contribution under its key.
    pub fn register_configuration_schema(&mut self, contribution: ConfigurationContribution) -> (r: Result<
        (),
        CoreError,
    >)
        requires
            old(self).wf(),
        ensures
            final(self).wf(),
            final(self).user() == old(self).user(),
            final(self).workspace() == old(self).workspace(),
            final(self).schemas() == register_schemas(old(self).schemas(), views(contribution.properties@)),
            r is Ok,
    {
        let ghost all = views(contribution.properties@);
        let ghost start = self.schemas();
        let props = contribution.properties;
        let mut i: usize = 0;
        assert(all.take(0) =~= Seq::<SchemaView>::empty());
        while i < props.len()
            invariant
                self.wf(),
                i <= props@.len(),
                all == views(props@),
                self.user() == old(self).user(),
                self.workspace() == old(self).workspace(),
                self.schemas() == register_schemas(start, all.take(i as int)),
            decreases props@.len() - i,
        {
            assert(all.take(i + 1).drop_last() =~= all.take(i as int));
            let p = props[i].duplicate();
            let key = p.key.clone();
            self.schemas.insert(key, p);
            i = i + 1;
        }
        assert(all.take(i as int) =~= all);
        Ok(())
    }

    /// The value stored in a scope (the folder scope reads the workspace's).
    pub fn get_configuration(&self, key: &str, scope: ConfigurationScope) -> (r: Result<Option<JsonValue>, CoreError>)
        ensures
            r matches Ok(v) && match v {
                Some(x) => scope_value(self.user(), self.workspace(), key@, scope) == Some(x@),
                None => scope_value(self.user(), self.workspace(), key@, scope) is None,
            },
    {
        match scope {
            ConfigurationScope::User => Ok(self.user_settings.get(key)),
            _ => Ok(self.workspace_settings.get(key)),
        }
    }

    /// The value a key resolves to from `scope`, falling back to broader
    /// scopes and then to the schema default.
    pub fn get_configuration_with_fallback(&self, key: &str, scope: ConfigurationScope) -> (r: Result<
        Option<JsonValue>,
        CoreError,
    >)
        ensures
            r matches Ok(v) && match v {
                Some(x) => resolved_value(self.schemas(), self.user(), self.workspace(), key@, scope)
                    == Some(x@),
                None => resolved_value(self.schemas(), self.user(), self.workspace(), key@, scope) is None,
            },
    {
        if let Ok(Some(v)) = self.get_configuration(key, scope) {
            return Ok(Some(v));
        }
        if scope == ConfigurationScope::WorkspaceFolder {
            if let Some(v) = self.workspace_settings.get(key) {
                return Ok(Some(v));
            }
        }
        if scope != ConfigurationScope::User {
            if let Some(v) = self.user_settings.get(key) {
                return Ok(Some(v));
            }
        }
        match self.schemas.get_ref(key) {
            Some(s) => Ok(Some(s.default.duplicate())),
            None => Ok(None),
        }
    }

    /// Stores a value in a scope after checking it against its schema (when
    /// the key has one); gives back the change to announce. The caller saves
    /// the scope's file.
    pub fn update_configuration(&mut self, key: String, value: JsonValue, scope: ConfigurationScope) -> (r:
        Result<ConfigurationChangeEvent, CoreError>)
        requires
            old(self).wf(),
        ensures
            final(self).wf(),
            update_result(*old(self), *final(self), key@, value@, scope, r),
    {
        if let Some(schema) = self.schemas.get_ref(key.as_str()) {
            if let Err(e) = validate_value(&value, schema) {
                return Err(e);
            }
        }
        let event = ConfigurationChangeEvent { affected_keys: vec![key.clone()], scope };
        match scope {
            ConfigurationScope::User => {
                self.user_settings.insert(key, value);
            },
            _ => {
                self.workspace_settings.insert(key, value);
            },
        }
        Ok(event)
    }

    /// Replaces a scope's values with those read from its settings file.
    pub fn replace_settings(&mut self, scope: ConfigurationScope, entries: Vec<(String, JsonValue)>)
        requires
            old(self).wf(),
        ensures
            final(self).wf(),
            final(self).schemas() == old(self).schemas(),
            scope == ConfigurationScope::User ==> final(self).user() == register_values(Seq::empty(), entries@)
                && final(self).workspace() == old(self).workspace(),
            scope != ConfigurationScope::User ==> final(self).workspace() == register_values(
                Seq::empty(),
                entries@,
            ) && final(self).user() == old(self).user(),
    {
        let mut store: Store<JsonValue> = Store::new();
        let mut i: usize = 0;
        let mut rest = entries;
        let ghost all = rest@;
        let n = rest.len();
        let mut rev: Vec<(String, JsonValue)> = Vec::new();
        while rest.len() > 0
            invariant
                rev@.len() + rest@.len() == n,
                n == all.len(),
                forall|k: int| 0 <= k < rev@.len() ==> (#[trigger] rev@[k]) == all[n - 1 - k],
                forall|k: int| 0 <= k < rest@.len() ==> (#[trigger] rest@[k]) == all[k],
            decreases rest@.len(),
        {
            let x = rest.pop().unwrap();
            rev.push(x);
        }
        assert(all.take(0) =~= Seq::<(String, JsonValue)>::empty());
        while rev.len() > 0
            invariant
                store.wf(),
                i + rev@.len() == n,
                n == all.len(),
                forall|k: int| 0 <= k < rev@.len() ==> (#[trigger] rev@[k]) == all[n - 1 - k],
                store.entries() == register_values(Seq::empty(), all.take(i as int)),
            decreases rev@.len(),
        {
            let x = rev.pop().unwrap();
            assert(x == all[i as int]);
            assert(all.take(i + 1).drop_last() =~= all.take(i as int));
            store.insert(x.0, x.1);
            i = i + 1;
        }
        assert(all.take(n as int) =~= all);
        match scope {
            ConfigurationScope::User => {
                self.user_settings = store;
            },
            _ => {
                self.workspace_settings = store;
            },
        }
    }

    /// Copies of a scope's values, for saving to its settings file.
    pub fn settings_entries(&self, scope: ConfigurationScope) -> (r: Vec<(String, JsonValue)>)
        ensures
            r@.map_values(|e: (String, JsonValue)| (e.0@, e.1@)) == if scope == ConfigurationScope::User {
                self.user()
            } else {
                self.workspace()
            },
    {
        let store = match scope {
            ConfigurationScope::User => &self.user_settings,
            _ => &self.workspace_settings,
        };
        let ghost d = store.entries();
        let mut out: Vec<(String, JsonValue)> = Vec::new();
        let mut i: usize = 0;
        while i < store.len()
            invariant
                i <= d.len(),
                d == store.entries(),
                out@.len() == i,
                forall|j: int| 0 <= j < i ==> (#[trigger] out@[j]).0@ == d[j].0 && out@[j].1@ == d[j].1,
            decreases d.len() - i,
        {
            let (k, v) = store.entry_at(i);
            out.push((k.clone(), v.duplicate()));
            i = i + 1;
        }
        assert(out@.map_values(|e: (String, JsonValue)| (e.0@, e.1@)) =~= d);
        out
    }

    /// The keys with a value in a scope.
    pub fn get_all_keys(&self, scope: ConfigurationScope) -> (r: Vec<String>)
        ensures
            r@.map_values(|s: String| s@) == keys_of(
                if scope == ConfigurationScope::User {
                    self.user()
                } else {
                    self.workspace()
                },
            ),
    {
        match scope {
            ConfigurationScope::User => self.user_settings.keys(),
            _ => self.workspace_settings.keys(),
        }
    }

    /// Whether a scope holds a value for `key`.
    pub fn has_configuration(&self, key: &str, scope: ConfigurationScope) -> (r: bool)
        ensures
            r == scope_value(self.user(), self.workspace(), key@, scope) is Some,
    {
        match self.get_configuration(key, scope) {
            Ok(Some(_)) => true,
            _ => false,
        }
    }

    /// Removes the schemas whose key begins with `owner.`.
    pub fn clear_configuration_data(&mut self, owner: &str)
        requires
            old(self).wf(),
        ensures
            final(self).wf(),
            final(self).user() == old(self).user(),
            final(self).workspace() == old(self).workspace(),
            final(self).schemas() == old(self).schemas().filter(
                |e: (Seq<char>, SchemaView)| !starts_with_spec(e.1.key, owner@.push('.')),
            ),
    {
        let prefix = with_char(owner, '.');
        let ghost before = self.schemas();
        let ghost pred = |e: (Seq<char>, SchemaView)| !starts_with_spec(e.1.key, owner@.push('.'));
        let n = self.schemas.len();
        let mut keep: Vec<bool> = Vec::new();
        let mut i: usize = 0;
        while i < n
            invariant
                n == before.len(),
                before == self.schemas(),
                prefix@ == owner@.push('.'),
                i <= n,
                keep@.len() == i,
                pred == (|e: (Seq<char>, SchemaView)| !starts_with_spec(e.1.key, owner@.push('.'))),
                forall|k: int| 0 <= k < i ==> keep@[k] == pred(#[trigger] before[k]),
            decreases n - i,
        {
            let (_, s) = self.schemas.entry_at(i);
            keep.push(!starts_with(s.key.as_str(), prefix.as_str()));
            i = i + 1;
        }
        self.schemas.retain_mask(&keep);
        proof {
            crate::store::lemma_filter_mask_is_filter(before, keep@, pred);
        }
    }
}

/// What storing `value` under `key` in `scope` does: refused when the key's
/// schema rejects the value, else the scope's values take it and the change
/// names the key and the scope.
pub open spec fn update_result(
    pre: ConfigurationRegistry,
    post: ConfigurationRegistry,
    key: Seq<char>,
    value: JsonView,
    scope: ConfigurationScope,
    r: Result<ConfigurationChangeEvent, CoreError>,
) -> bool {
    &&& post.schemas() == pre.schemas()
    &&& match lookup(pre.schemas(), key) {
        Some(s) if schema_problem(value, s) is Some => {
            &&& r matches Err(CoreError::Config(m)) && m@ == schema_problem(value, s)->0
            &&& post.user() == pre.user()
            &&& post.workspace() == pre.workspace()
        },
        _ => {
            &&& r matches Ok(ev) && ev.scope == scope && ev.affected_keys@.len() == 1
                && ev.affected_keys@[0]@ == key
            &&& scope == ConfigurationScope::User ==> post.user() == store_insert(pre.user(), key, value)
                && post.workspace() == pre.workspace()
            &&& scope != ConfigurationScope::User ==> post.workspace() == store_insert(
                pre.workspace(),
                key,
                value,
            ) && post.user() == pre.user()
        },
    }
}

/// The schemas after recording `props` in turn, each under its key.
pub open spec fn register_schemas(state: Seq<(Seq<char>, SchemaView)>, props: Seq<SchemaView>) -> Seq<
    (Seq<char>, SchemaView),
>
    decreases props.len(),
{
    if props.len() == 0 {
        state
    } else {
        let s = register_schemas(state, props.drop_last());
        store_insert(s, props.last().key, props.last())
    }
}

/// The values after storing `entries` in turn.
pub open spec fn register_values(state: Seq<(Seq<char>, JsonView)>, entries: Seq<(String, JsonValue)>) -> Seq<
    (Seq<char>, JsonView),
>
    decreases entries.len(),
{
    if entries.len() == 0 {
        state
    } else {
        let s = register_values(state, entries.drop_last());
        store_insert(s, entries.last().0@, entries.last().1@)
    }
}

} // verus!

verus! {

/// A value stored in a scope is what that scope then reads, and what the key
/// then resolves to from that scope; other keys read as before.
pub proof fn lemma_update_then_read(
    pre: ConfigurationRegistry,
    post: ConfigurationRegistry,
    key: Seq<char>,
    value: JsonView,
    scope: ConfigurationScope,
    r: Result<ConfigurationChangeEvent, CoreError>,
    other: Seq<char>,
)
    requires
        update_result(pre, post, key, value, scope, r),
        r is Ok,
    ensures
        scope_value(post.user(), post.workspace(), key, scope) == Some(value),
        resolved_value(post.schemas(), post.user(), post.workspace(), key, scope) == Some(value),
        other != key ==> scope_value(post.user(), post.workspace(), other, scope) == scope_value(
            pre.user(),
            pre.workspace(),
            other,
            scope,
        ),
{
    crate::store::lemma_lookup_insert(pre.user(), key, value, other);
    crate::store::lemma_lookup_insert(pre.workspace(), key, value, other);
}

/// The order in which a key resolves: from the user scope, the user's value,
/// else the schema's default; from the workspace or a folder, the
/// workspace's value, else the user's, else the schema's default; nothing
/// when none of them is there.
pub proof fn lemma_resolution_order(
    schemas: Seq<(Seq<char>, SchemaView)>,
    user: Seq<(Seq<char>, JsonView)>,
    workspace: Seq<(Seq<char>, JsonView)>,
    key: Seq<char>,
    scope: ConfigurationScope,
    v: JsonView,
    s: SchemaView,
)
    ensures
        scope == ConfigurationScope::User && lookup(user, key) == Some(v) ==> resolved_value(
            schemas,
            user,
            workspace,
            key,
            scope,
        ) == Some(v),
        scope != ConfigurationScope::User && lookup(workspace, key) == Some(v) ==> resolved_value(
            schemas,
            user,
            workspace,
            key,
            scope,
        ) == Some(v),
        scope != ConfigurationScope::User && lookup(workspace, key) is None && lookup(user, key) == Some(v)
            ==> resolved_value(schemas, user, workspace, key, scope) == Some(v),
        (scope == ConfigurationScope::User || lookup(workspace, key) is None) && lookup(user, key) is None
            && lookup(schemas, key) == Some(s) ==> resolved_value(schemas, user, workspace, key, scope) == Some(
            s.default,
        ),
        (scope == ConfigurationScope::User || lookup(workspace, key) is None) && lookup(user, key) is None
            && lookup(schemas, key) is None ==> resolved_value(schemas, user, workspace, key, scope) is None,
{
}

} // verus!
