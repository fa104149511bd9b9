//! The settings editor: categories, how each setting is shown, searching
//! settings, and checking a value before it is stored.
use vstd::prelude::*;
use crate::store::{Duplicate, Store, duplicate_all, lookup, store_insert, distinct_keys};
use crate::text::{clone_opt, clone_strings, concat, contains, contains_spec, lowercase, opt_view, owned, starts_with, starts_with_spec, str_eq, to_lowercase, with_char};
use crate::json::{JsonNumber, JsonValue, JsonView};
use crate::order::{ranked_insertion_point, ranked_sort};
use crate::configuration::{ConfigurationRegistry, ConfigurationScope, scope_value, resolved_value};
use crate::textdocument::CoreError;

verus! {

/// A group of settings in the settings editor.
pub struct SettingsCategory {
    pub id: String,
    pub title: String,
    pub description: Option<String>,
    pub icon: Option<String>,
    pub order: i32,
    pub owner: String,
}

/// A choice of an enum setting.
pub struct EnumValue {
    pub value: String,
    pub label: String,
    pub description: Option<String>,
}

#[derive(Clone, Copy, Debug, PartialEq, Eq, Structural)]
pub enum SettingScope {
    Application,
    Window,
    Resource,
    Language,
    Machine,
}

/// The editor control of a setting and its limits. Number limits are JSON
/// numbers as the schema writes them.
pub enum SettingUIType {
    String { pattern: Option<String>, min_length: Option<usize>, max_length: Option<usize> },
    Number { min: Option<JsonNumber>, max: Option<JsonNumber>, step: Option<JsonNumber> },
    Boolean,
    Enum { values: Vec<EnumValue>, allow_custom: Option<bool> },
    Array { item_type: String, min_items: Option<usize>, max_items: Option<usize> },
    Object,
}

/// Mathematical form of a [`SettingUIType`].
pub enum SettingUITypeView {
    String { pattern: Option<Seq<char>>, min_length: Option<usize>, max_length: Option<usize> },
    Number {
        min: Option<crate::json::JsonNumberView>,
        max: Option<crate::json::JsonNumberView>,
        step: Option<crate::json::JsonNumberView>,
    },
    Boolean,
    Enum { values: Seq<EnumValue>, allow_custom: Option<bool> },
    Array { item_type: Seq<char>, min_items: Option<usize>, max_items: Option<usize> },
    Object,
}

/// How a setting is shown and what it accepts.
pub struct SettingUISchema {
    pub title: String,
    pub description: Option<String>,
    pub ui_type: SettingUIType,
    pub default: JsonValue,
    pub category: String,
    pub order: i32,
    pub tags: Vec<String>,
    pub scope: SettingScope,
    pub deprecated: bool,
    pub deprecation_message: Option<String>,
}

/// Mathematical form of a [`SettingUISchema`].
pub struct UISchemaView {
    pub title: Seq<char>,
    pub description: Option<Seq<char>>,
    pub ui_type: SettingUITypeView,
    pub default: JsonView,
    pub category: Seq<char>,
    pub order: i32,
    pub tags: Seq<String>,
    pub scope: SettingScope,
    pub deprecated: bool,
    pub deprecation_message: Option<Seq<char>>,
}

/// A setting with its values in the user and workspace scopes.
pub struct SettingWithValue {
    pub key: String,
    pub schema: SettingUISchema,
    pub user_value: Option<JsonValue>,
    pub workspace_value: Option<JsonValue>,
}

/// A setting found by a search, with its score.
pub struct SettingSearchResult {
    pub key: String,
    pub schema: SettingUISchema,
    pub score: i32,
}

impl View for SettingsCategory {
    type V = SettingsCategory;

    open spec fn view(&self) -> SettingsCategory {
        *self
    }
}

impl Duplicate for SettingsCategory {
    fn duplicate(&self) -> (r: Self) {
        SettingsCategory {
            id: self.id.clone(),
            title: self.title.clone(),
            description: clone_opt(&self.description),
            icon: clone_opt(&self.icon),
            order: self.order,
            owner: self.owner.clone(),
        }
    }
}

impl View for EnumValue {
    type V = EnumValue;

    open spec fn view(&self) -> EnumValue {
        *self
    }
}

impl Duplicate for EnumValue {
    fn duplicate(&self) -> (r: Self) {
        EnumValue { value: self.value.clone(), label: self.label.clone(), description: clone_opt(&self.description) }
    }
}

impl View for SettingUIType {
    type V = SettingUITypeView;

    open spec fn view(&self) -> SettingUITypeView {
        match self {
            SettingUIType::String { pattern, min_length, max_length } => SettingUITypeView::String {
                pattern: opt_view(*pattern),
                min_length: *min_length,
                max_length: *max_length,
            },
            SettingUIType::Number { min, max, step } => SettingUITypeView::Number {
                min: number_view(*min),
                max: number_view(*max),
                step: number_view(*step),
            },
            SettingUIType::Boolean => SettingUITypeView::Boolean,
            SettingUIType::Enum { values, allow_custom } => SettingUITypeView::Enum {
                values: values@,
                allow_custom: *allow_custom,
            },
            SettingUIType::Array { item_type, min_items, max_items } => SettingUITypeView::Array {
                item_type: item_type@,
                min_items: *min_items,
                max_items: *max_items,
            },
            SettingUIType::Object => SettingUITypeView::Object,
        }
    }
}

/// The view of an optional number.
pub open spec fn number_view(n: Option<JsonNumber>) -> Option<crate::json::JsonNumberView> {
    match n {
        Some(x) => Some(x@),
        None => None,
    }
}

fn dup_number(n: &Option<JsonNumber>) -> (r: Option<JsonNumber>)
    ensures
        number_view(r) == number_view(*n),
{
    match n {
        Some(x) => Some(x.duplicate()),
        None => None,
    }
}

impl Duplicate for SettingUIType {
    fn duplicate(&self) -> (r: Self) {
        match self {
            SettingUIType::String { pattern, min_length, max_length } => SettingUIType::String {
                pattern: clone_opt(pattern),
                min_length: *min_length,
                max_length: *max_length,
            },
            SettingUIType::Number { min, max, step } => SettingUIType::Number {
                min: dup_number(min),
                max: dup_number(max),
                step: dup_number(step),
            },
            SettingUIType::Boolean => SettingUIType::Boolean,
            SettingUIType::Enum { values, allow_custom } => {
                let c = duplicate_all(values);
                assert(c@ =~= values@);
                SettingUIType::Enum { values: c, allow_custom: *allow_custom }
            },
            SettingUIType::Array { item_type, min_items, max_items } => SettingUIType::Array {
                item_type: item_type.clone(),
                min_items: *min_items,
                max_items: *max_items,
            },
            SettingUIType::Object => SettingUIType::Object,
        }
    }
}

impl View for SettingUISchema {
    type V = UISchemaView;

    open spec fn view(&self) -> UISchemaView {
        UISchemaView {
            title: self.title@,
            description: opt_view(self.description),
            ui_type: self.ui_type@,
            default: self.default@,
            category: self.category@,
            order: self.order,
            tags: self.tags@,
            scope: self.scope,
            deprecated: self.deprecated,
            deprecation_message: opt_view(self.deprecation_message),
        }
    }
}

impl Duplicate for SettingUISchema {
    fn duplicate(&self) -> (r: Self) {
        SettingUISchema {
            title: self.title.clone(),
            description: clone_opt(&self.description),
            ui_type: self.ui_type.duplicate(),
            default: self.default.duplicate(),
            category: self.category.clone(),
            order: self.order,
            tags: clone_strings(&self.tags),
            scope: self.scope,
            deprecated: self.deprecated,
            deprecation_message: clone_opt(&self.deprecation_message),
        }
    }
}

/// What `regex::Regex::new(pattern)` followed by `is_match(text)` gives: the
/// match, or the compile error's message.
pub uninterp spec fn regex_result(pattern: Seq<char>, text: Seq<char>) -> Result<bool, Seq<char>>;

/// Compiles `pattern` with `regex::Regex::new` and tests `text` with
/// `is_match`; a compile error comes back as its message. The contract
/// claims only that the outcome is a function of the two strings.
#[verifier::external_body]
fn regex_match(pattern: &str, text: &str) -> (r: Result<bool, String>)
    ensures
        match r {
            Ok(b) => regex_result(pattern@, text@) == Ok::<bool, Seq<char>>(b),
            Err(m) => regex_result(pattern@, text@) == Err::<bool, Seq<char>>(m@),
        },
{
    match regex::Regex::new(pattern) {
        Ok(re) => Ok(re.is_match(text)),
        Err(e) => Err(e.to_string()),
    }
}

/// Whether an array item has the type an array setting asks for (any type
/// when it asks for one other than string, number, boolean).
pub open spec fn item_fits(item_type: Seq<char>, item: JsonView) -> bool {
    if item_type == "string"@ {
        item is Str
    } else if item_type == "number"@ {
        item is Number
    } else if item_type == "boolean"@ {
        item is Bool
    } else {
        true
    }
}

/// The message for an array item of the wrong type.
pub open spec fn item_message(item_type: Seq<char>) -> Seq<char> {
    if item_type == "string"@ {
        "Array items must be strings"@
    } else if item_type == "number"@ {
        "Array items must be numbers"@
    } else {
        "Array items must be booleans"@
    }
}

/// Why the items of an array setting's value do not fit, if they do not.
pub open spec fn array_problem(item_type: Seq<char>, items: Seq<JsonView>) -> Option<Seq<char>> {
    if exists|i: int| 0 <= i < items.len() && !item_fits(item_type, #[trigger] items[i]) {
        Some(item_message(item_type))
    } else {
        None
    }
}

/// Why a value does not fit a setting's control, if it does not. A number's
/// limits are not checked here.
pub open spec fn value_problem(t: SettingUITypeView, value: JsonView) -> Option<Seq<char>> {
    match t {
        SettingUITypeView::String { pattern, .. } => if !(value is Str) {
            Some("Value must be a string"@)
        } else {
            match pattern {
                Some(p) => match regex_result(p, value->Str_0) {
                    Err(e) => Some("Invalid pattern: "@ + e),
                    Ok(m) => if m {
                        None
                    } else {
                        Some("Value does not match pattern: "@ + p)
                    },
                },
                None => None,
            }
        },
        SettingUITypeView::Number { .. } => if !(value is Number) {
            Some("Value must be a number"@)
        } else {
            None
        },
        SettingUITypeView::Boolean => if !(value is Bool) {
            Some("Value must be a boolean"@)
        } else {
            None
        },
        SettingUITypeView::Enum { values, .. } => if !(value is Str) {
            Some("Value must be a string"@)
        } else if exists|i: int| 0 <= i < values.len() && (#[trigger] values[i]).value@ == value->Str_0 {
            None
        } else {
            Some("Value must be one of the allowed values"@)
        },
        SettingUITypeView::Array { item_type, .. } => match value {
            JsonView::Array(items) => array_problem(item_type, items),
            _ => Some("Value must be an array"@),
        },
        SettingUITypeView::Object => if !(value is Object) {
            Some("Value must be an object"@)
        } else {
            None
        },
    }
}

/// How a number compares with its setting's limits, as the caller finds it
/// (the limits are compared as floating-point numbers): within them, below
/// the minimum, or above the maximum, with the text that limit prints as.
pub enum LimitCheck {
    Within,
    BelowMin(String),
    AboveMax(String),
}

/// The message for a number outside a setting's limits: only a limit the
/// setting has can be broken.
pub open spec fn limit_problem(t: SettingUITypeView, check: LimitCheck) -> Option<Seq<char>> {
    match t {
        SettingUITypeView::Number { min, max, .. } => match check {
            LimitCheck::BelowMin(text) => if min is Some {
                Some("Value must be >= "@ + text@)
            } else {
                None
            },
            LimitCheck::AboveMax(text) => if max is Some {
                Some("Value must be <= "@ + text@)
            } else {
                None
            },
            LimitCheck::Within => None,
        },
        _ => None,
    }
}

/// Why a value does not fit its setting: its kind first, then a number's limits.
pub open spec fn setting_problem(t: SettingUITypeView, value: JsonView, check: LimitCheck) -> Option<Seq<char>> {
    match value_problem(t, value) {
        Some(m) => Some(m),
        None => limit_problem(t, check),
    }
}

fn item_fits_exec(item_type: &str, item: &JsonValue) -> (r: bool)
    ensures
        r == item_fits(item_type@, item@),
{
    if str_eq(item_type, "string") {
        matches!(item, JsonValue::Str(_))
    } else if str_eq(item_type, "number") {
        matches!(item, JsonValue::Number(_))
    } else if str_eq(item_type, "boolean") {
        matches!(item, JsonValue::Bool(_))
    } else {
        true
    }
}

/// Checks a value against a setting's control.
pub fn check_value(ui_type: &SettingUIType, value: &JsonValue) -> (r: Result<(), String>)
    ensures
        match value_problem(ui_type@, value@) {
            None => r is Ok,
            Some(m) => r matches Err(got) && got@ == m,
        },
{
    match ui_type {
        SettingUIType::String { pattern, .. } => {
            let text = match value {
                JsonValue::Str(t) => t,
                _ => {
                    return Err(owned("Value must be a string"));
                },
            };
            if let Some(p) = pattern {
                match regex_match(p.as_str(), text.as_str()) {
                    Err(e) => {
                        return Err(concat("Invalid pattern: ", e.as_str()));
                    },
                    Ok(m) => {
                        if !m {
                            return Err(concat("Value does not match pattern: ", p.as_str()));
                        }
                    },
                }
            }
            Ok(())
        },
        SettingUIType::Number { .. } => {
            if !matches!(value, JsonValue::Number(_)) {
                return Err(owned("Value must be a number"));
            }
            Ok(())
        },
        SettingUIType::Boolean => {
            if !matches!(value, JsonValue::Bool(_)) {
                return Err(owned("Value must be a boolean"));
            }
            Ok(())
        },
        SettingUIType::Enum { values, allow_custom } => {
            let text = match value {
                JsonValue::Str(t) => t,
                _ => {
                    return Err(owned("Value must be a string"));
                },
            };
            let mut i: usize = 0;
            while i < values.len()
                invariant
                    i <= values@.len(),
                    *value == JsonValue::Str(*text),
                    *ui_type == (SettingUIType::Enum { values: *values, allow_custom: *allow_custom }),
                    forall|k: int| 0 <= k < i ==> (#[trigger] values@[k]).value@ != text@,
                decreases values@.len() - i,
            {
                if str_eq(values[i].value.as_str(), text.as_str()) {
                    assert(values@[i as int].value@ == value@->Str_0);
                    return Ok(());
                }
                i = i + 1;
            }
            Err(owned("Value must be one of the allowed values"))
        },
        SettingUIType::Array { item_type, min_items, max_items } => {
            let items = match value {
                JsonValue::Array(items) => items,
                _ => {
                    return Err(owned("Value must be an array"));
                },
            };
            proof {
                crate::json::lemma_view_array(*items);
            }
            let ghost av = crate::json::array_views(items@);
            let mut i: usize = 0;
            while i < items.len()
                invariant
                    i <= items@.len(),
                    av == crate::json::array_views(items@),
                    *value == JsonValue::Array(*items),
                    value@ == JsonView::Array(av),
                    *ui_type == (SettingUIType::Array {
                        item_type: *item_type,
                        min_items: *min_items,
                        max_items: *max_items,
                    }),
                    forall|k: int| 0 <= k < i ==> item_fits(item_type@, #[trigger] av[k]),
                decreases items@.len() - i,
            {
                if !item_fits_exec(item_type.as_str(), &items[i]) {
                    assert(!item_fits(item_type@, av[i as int]));
                    assert(exists|k: int| 0 <= k < av.len() && !item_fits(item_type@, #[trigger] av[k]));
                    assert(ui_type@ == (SettingUITypeView::Array {
                        item_type: item_type@,
                        min_items: *min_items,
                        max_items: *max_items,
                    }));
                    assert(value@ == JsonView::Array(av));
                    assert(array_problem(item_type@, av) == Some(item_message(item_type@)));
                    let m = if str_eq(item_type.as_str(), "string") {
                        owned("Array items must be strings")
                    } else if str_eq(item_type.as_str(), "number") {
                        owned("Array items must be numbers")
                    } else {
                        owned("Array items must be booleans")
                    };
                    return Err(m);
                }
                i = i + 1;
            }
            Ok(())
        },
        SettingUIType::Object => {
            if !matches!(value, JsonValue::Object(_)) {
                return Err(owned("Value must be an object"));
            }
            Ok(())
        },
    }
}

/// The order categories are kept in: by their `order`, arrival order among equals.
pub open spec fn category_key() -> spec_fn(SettingsCategory) -> (int, Seq<char>) {
    |c: SettingsCategory| (c.order as int, Seq::<char>::empty())
}

/// How well a setting fits a lowercase query: 100 for its key, 50 for its
/// title, 25 for its description, 10 for its category and 5 for each tag
/// that contains the query, compared in lowercase.
pub open spec fn setting_score(key: Seq<char>, s: UISchemaView, q: Seq<char>) -> int {
    (if contains_spec(lowercase(key), q) { 100int } else { 0int }) + (if contains_spec(lowercase(s.title), q) {
        50int
    } else {
        0int
    }) + (match s.description {
        Some(d) => if contains_spec(lowercase(d), q) {
            25int
        } else {
            0int
        },
        None => 0int,
    }) + (if contains_spec(lowercase(s.category), q) { 10int } else { 0int }) + 5 * tag_hits(s.tags, q)
}

/// How many tags contain the query, compared in lowercase.
pub open spec fn tag_hits(tags: Seq<String>, q: Seq<char>) -> int
    decreases tags.len(),
{
    if tags.len() == 0 {
        0
    } else {
        tag_hits(tags.drop_last(), q) + if contains_spec(lowercase(tags.last()@), q) {
            1int
        } else {
            0int
        }
    }
}

proof fn lemma_tag_hits_bounds(tags: Seq<String>, q: Seq<char>)
    ensures
        0 <= tag_hits(tags, q) <= tags.len(),
    decreases tags.len(),
{
    if tags.len() > 0 {
        lemma_tag_hits_bounds(tags.drop_last(), q);
    }
}

/// A search hit: key, schema and score.
pub open spec fn hit(key: Seq<char>, s: UISchemaView, score: int) -> (Seq<char>, UISchemaView, int) {
    (key, s, score)
}

/// The settings whose score for `q` is positive, each with its score, in
/// schema order.
pub open spec fn scored(schemas: Seq<(Seq<char>, UISchemaView)>, q: Seq<char>) -> Seq<(Seq<char>, UISchemaView, int)>
    decreases schemas.len(),
{
    if schemas.len() == 0 {
        Seq::empty()
    } else {
        let rest = scored(schemas.drop_last(), q);
        let (k, s) = schemas.last();
        if setting_score(k, s, q) > 0 {
            rest.push(hit(k, s, setting_score(k, s, q)))
        } else {
            rest
        }
    }
}

/// Search hits, highest score first, arrival order among equals.
pub open spec fn score_key() -> spec_fn((Seq<char>, UISchemaView, int)) -> (int, Seq<char>) {
    |h: (Seq<char>, UISchemaView, int)| (-h.2, Seq::<char>::empty())
}

/// Every schema's tags are few enough for its score to fit an `i32`.
pub open spec fn scores_fit(schemas: Seq<(Seq<char>, UISchemaView)>) -> bool {
    forall|i: int| 0 <= i < schemas.len() ==> (#[trigger] schemas[i]).1.tags.len() <= 429_496_692
}

pub open spec fn setting_missing(key: Seq<char>) -> Seq<char> {
    "Setting '"@ + key + "' not found"@
}

fn quoted(head: &str, id: &str, tail: &str) -> (r: String)
    ensures
        r@ == head@ + id@ + tail@,
{
    let a = concat(head, id);
    concat(a.as_str(), tail)
}

/// Position of the first category with id `id`, or the length when there is none.
pub open spec fn first_category(cats: Seq<SettingsCategory>, id: Seq<char>) -> int
    decreases cats.len(),
{
    if cats.len() == 0 {
        0
    } else if cats[0].id@ == id {
        0
    } else {
        1 + first_category(cats.drop_first(), id)
    }
}

proof fn lemma_first_category_is(cats: Seq<SettingsCategory>, id: Seq<char>, i: int)
    requires
        0 <= i <= cats.len(),
        forall|j: int| 0 <= j < i ==> (#[trigger] cats[j]).id@ != id,
        i == cats.len() || cats[i].id@ == id,
    ensures
        first_category(cats, id) == i,
    decreases cats.len(),
{
    if cats.len() > 0 && cats[0].id@ != id {
        assert forall|j: int| 0 <= j < i - 1 implies (#[trigger] cats.drop_first()[j]).id@ != id by {
            assert(cats.drop_first()[j] == cats[j + 1]);
        }
        lemma_first_category_is(cats.drop_first(), id, i - 1);
    }
}

/// Settings categories in display order, and the editor schema of each setting.
pub struct SettingsUIRegistry {
    categories: Vec<SettingsCategory>,
    ui_schemas: Store<SettingUISchema>,
}

impl SettingsUIRegistry {
    pub closed spec fn categories(&self) -> Seq<SettingsCategory> {
        self.categories@
    }

    pub closed spec fn schemas(&self) -> Seq<(Seq<char>, UISchemaView)> {
        self.ui_schemas.entries()
    }

    pub open spec fn wf(&self) -> bool {
        distinct_keys(self.schemas())
    }

    pub fn new() -> (r: Self)
        ensures
            r.wf(),
            r.categories().len() == 0,
            r.schemas().len() == 0,
    {
        SettingsUIRegistry { categories: Vec::new(), ui_schemas: Store::new() }
    }

    /// Adds a category where its order puts it; refused when its id is taken.
    pub fn register_category(&mut self, category: SettingsCategory) -> (r: Result<String, String>)
        requires
            old(self).wf(),
        ensures
            final(self).wf(),
            final(self).schemas() == old(self).schemas(),
            (exists|i: int| 0 <= i < old(self).categories().len() && (#[trigger] old(self).categories()[i]).id@ == category.id@) ==> {
                &&& r matches Err(m) && m@ == "Category '"@ + category.id@ + "' already registered"@
                &&& final(self).categories() == old(self).categories()
            },
            !(exists|i: int| 0 <= i < old(self).categories().len() && (#[trigger] old(self).categories()[i]).id@ == category.id@) ==> {
                &&& r matches Ok(id) && id@ == category.id@
                &&& final(self).categories() == old(self).categories().insert(
                    ranked_insertion_point(old(self).categories(), category, category_key()),
                    category,
                )
            },
    {
        let mut i: usize = 0;
        while i < self.categories.len()
            invariant
                self.wf(),
                i <= self.categories@.len(),
                forall|k: int| 0 <= k < i ==> (#[trigger] self.categories@[k]).id@ != category.id@,
            decreases self.categories@.len() - i,
        {
            if str_eq(self.categories[i].id.as_str(), category.id.as_str()) {
                return Err(quoted("Category '", category.id.as_str(), "' already registered"));
            }
            i = i + 1;
        }
        let id = category.id.clone();
        let ghost s = self.categories@;
        let ghost key = category_key();
        let mut j: usize = self.categories.len();
        assert(s.take(j as int) =~= s);
        while j > 0 && category.order < self.categories[j - 1].order
            invariant
                j <= s.len(),
                s == self.categories@,
                key == category_key(),
                ranked_insertion_point(s, category, key) == ranked_insertion_point(s.take(j as int), category, key),
            decreases j,
        {
            assert(s.take(j as int).drop_last() =~= s.take(j - 1));
            assert(s.take(j as int).last() == s[j - 1]);
            j = j - 1;
        }
        proof {
            if j > 0 {
                assert(s.take(j as int).last() == s[j - 1]);
                crate::order::lemma_seq_lt_irreflexive(Seq::<char>::empty());
            }
        }
        self.categories.insert(j, category);
        Ok(id)
    }

    /// Copies of the categories, in display order.
    pub fn get_categories(&self) -> (r: Vec<SettingsCategory>)
        ensures
            r@ == self.categories(),
    {
        let r = duplicate_all(&self.categories);
        assert(r@ =~= self.categories@);
        r
    }

    /// A copy of the first category with `category_id`.
    pub fn get_category(&self, category_id: &str) -> (r: Result<SettingsCategory, String>)
        ensures
            first_category(self.categories(), category_id@) < self.categories().len() ==> r
                == Ok::<SettingsCategory, String>(
                self.categories()[first_category(self.categories(), category_id@)],
            ),
            first_category(self.categories(), category_id@) >= self.categories().len() ==> (r matches Err(m)
                && m@ == "Category '"@ + category_id@ + "' not found"@),
    {
        let mut i: usize = 0;
        while i < self.categories.len()
            invariant
                i <= self.categories@.len(),
                forall|k: int| 0 <= k < i ==> (#[trigger] self.categories@[k]).id@ != category_id@,
            decreases self.categories@.len() - i,
        {
            if str_eq(self.categories[i].id.as_str(), category_id) {
                proof {
                    lemma_first_category_is(self.categories@, category_id@, i as int);
                }
                let c = self.categories[i].duplicate();
                return Ok(c);
            }
            i = i + 1;
        }
        proof {
            lemma_first_category_is(self.categories@, category_id@, i as int);
        }
        Err(quoted("Category '", category_id, "' not found"))
    }

    /// Records the editor schema of a setting.
    pub fn register_ui_schema(&mut self, key: String, schema: SettingUISchema) -> (r: Result<(), String>)
        requires
            old(self).wf(),
        ensures
            final(self).wf(),
            final(self).categories() == old(self).categories(),
            final(self).schemas() == store_insert(old(self).schemas(), key@, schema@),
            r is Ok,
    {
        self.ui_schemas.insert(key, schema);
        Ok(())
    }

    /// A copy of the editor schema of a setting.
    pub fn get_ui_schema(&self, key: &str) -> (r: Option<SettingUISchema>)
        ensures
            match lookup(self.schemas(), key@) {
                Some(s) => r matches Some(got) && got@ == s,
                None => r is None,
            },
    {
        self.ui_schemas.get(key)
    }

    /// Copies of all editor schemas, each with its setting's key.
    pub fn get_all_ui_schemas(&self) -> (r: Vec<(String, SettingUISchema)>)
        ensures
            r@.map_values(|e: (String, SettingUISchema)| (e.0@, e.1@)) == self.schemas(),
    {
        let ghost d = self.ui_schemas.entries();
        let mut out: Vec<(String, SettingUISchema)> = Vec::new();
        let mut i: usize = 0;
        while i < self.ui_schemas.len()
            invariant
                i <= d.len(),
                d == self.ui_schemas.entries(),
                out@.len() == i,
                forall|j: int| 0 <= j < i ==> (#[trigger] out@[j]).0@ == d[j].0 && out@[j].1@ == d[j].1,
            decreases d.len() - i,
        {
            let (k, v) = self.ui_schemas.entry_at(i);
            out.push((k.clone(), v.duplicate()));
            i = i + 1;
        }
        assert(out@.map_values(|e: (String, SettingUISchema)| (e.0@, e.1@)) =~= d);
        out
    }

    /// The settings matching `query`, highest score first.
    pub fn search_settings(&self, query: &str) -> (r: Vec<SettingSearchResult>)
        requires
            scores_fit(self.schemas()),
        ensures
            r@.map_values(|h: SettingSearchResult| (h.key@, h.schema@, h.score as int)) == ranked_sort(
                scored(self.schemas(), lowercase(query@)),
                score_key(),
            ),
    {
        let q = to_lowercase(query);
        let ghost d = self.ui_schemas.entries();
        let ghost key = score_key();
        let mut results: Vec<SettingSearchResult> = Vec::new();
        let mut i: usize = 0;
        while i < self.ui_schemas.len()
            invariant
                i <= d.len(),
                d == self.ui_schemas.entries(),
                q@ == lowercase(query@),
                key == score_key(),
                scores_fit(d),
                results@.map_values(|h: SettingSearchResult| (h.key@, h.schema@, h.score as int)) == ranked_sort(
                    scored(d.take(i as int), q@),
                    key,
                ),
            decreases d.len() - i,
        {
            assert(d.take(i + 1).drop_last() =~= d.take(i as int));
            assert(d.take(i + 1).last() == d[i as int]);
            let (k, schema) = self.ui_schemas.entry_at(i);
            assert(d[i as int].1.tags.len() <= 429_496_692);
            let score = score_of(k.as_str(), schema, q.as_str());
            assert(score as int == setting_score(d[i as int].0, d[i as int].1, q@));
            if score > 0 {
                let h = SettingSearchResult { key: k.clone(), schema: schema.duplicate(), score };
                let ghost hv = (h.key@, h.schema@, h.score as int);
                let ghost before = results@.map_values(|h: SettingSearchResult| (h.key@, h.schema@, h.score as int));
                assert(scored(d.take(i + 1), q@) == scored(d.take(i as int), q@).push(hv));
                let mut j: usize = results.len();
                assert(before.take(j as int) =~= before);
                while j > 0 && -(h.score as i64) < -(results[j - 1].score as i64)
                    invariant
                        j <= results@.len(),
                        before == results@.map_values(|h: SettingSearchResult| (h.key@, h.schema@, h.score as int)),
                        hv == (h.key@, h.schema@, h.score as int),
                        key == score_key(),
                        ranked_insertion_point(before, hv, key) == ranked_insertion_point(before.take(j as int), hv, key),
                    decreases j,
                {
                    assert(before.take(j as int).drop_last() =~= before.take(j - 1));
                    assert(before.take(j as int).last() == before[j - 1]);
                    j = j - 1;
                }
                proof {
                    crate::order::lemma_seq_lt_irreflexive(Seq::<char>::empty());
                    if j > 0 {
                        assert(before.take(j as int).last() == before[j - 1]);
                        assert(before[j - 1].2 == results@[j - 1].score as int);
                    }
                    let sc = scored(d.take(i as int), q@);
                    assert(sc.push(hv).drop_last() =~= sc);
                }
                results.insert(j, h);
                assert(results@.map_values(|h: SettingSearchResult| (h.key@, h.schema@, h.score as int)) =~= before.insert(j as int, hv));
            }
            i = i + 1;
        }
        assert(d.take(i as int) =~= d);
        results
    }

    /// Checks a value against the editor schema of its setting: its kind, and
    /// for a number the limits as `limits` says the value compares with them.
    pub fn validate_setting(&self, key: &str, value: &JsonValue, limits: LimitCheck) -> (r: Result<(), String>)
        ensures
            match lookup(self.schemas(), key@) {
                Some(s) => match setting_problem(s.ui_type, value@, limits) {
                    None => r is Ok,
                    Some(m) => r matches Err(got) && got@ == m,
                },
                None => r matches Err(m) && m@ == setting_missing(key@),
            },
    {
        match self.ui_schemas.get_ref(key) {
            Some(schema) => {
                check_value(&schema.ui_type, value)?;
                match &schema.ui_type {
                    SettingUIType::Number { min, max, .. } => match limits {
                        LimitCheck::BelowMin(text) => {
                            if min.is_some() {
                                return Err(concat("Value must be >= ", text.as_str()));
                            }
                            Ok(())
                        },
                        LimitCheck::AboveMax(text) => {
                            if max.is_some() {
                                return Err(concat("Value must be <= ", text.as_str()));
                            }
                            Ok(())
                        },
                        LimitCheck::Within => Ok(()),
                    },
                    _ => Ok(()),
                }
            },
            None => Err(quoted("Setting '", key, "' not found")),
        }
    }

    /// Removes the schemas of settings under `owner.` and the categories of `owner`.
    pub fn clear_settings_ui_data(&mut self, owner: &str)
        requires
            old(self).wf(),
        ensures
            final(self).wf(),
            final(self).schemas() == old(self).schemas().filter(
                |e: (Seq<char>, UISchemaView)| !starts_with_spec(e.0, owner@.push('.')),
            ),
            final(self).categories() == old(self).categories().filter(
                |c: SettingsCategory| c.owner@ != owner@,
            ),
    {
        let prefix = with_char(owner, '.');
        let ghost before = self.schemas();
        let ghost pred = |e: (Seq<char>, UISchemaView)| !starts_with_spec(e.0, owner@.push('.'));
        let n = self.ui_schemas.len();
        let mut keep: Vec<bool> = Vec::new();
        let mut i: usize = 0;
        while i < n
            invariant
                n == before.len(),
                before == self.schemas(),
                prefix@ == owner@.push('.'),
                i <= n,
                keep@.len() == i,
                pred == (|e: (Seq<char>, UISchemaView)| !starts_with_spec(e.0, owner@.push('.'))),
                forall|k: int| 0 <= k < i ==> keep@[k] == pred(#[trigger] before[k]),
            decreases n - i,
        {
            let (k, _) = self.ui_schemas.entry_at(i);
            keep.push(!starts_with(k.as_str(), prefix.as_str()));
            i = i + 1;
        }
        self.ui_schemas.retain_mask(&keep);
        proof {
            crate::store::lemma_filter_mask_is_filter(before, keep@, pred);
        }
        let ghost cs = self.categories@;
        let ghost cp = |c: SettingsCategory| c.owner@ != owner@;
        let mut kept: Vec<SettingsCategory> = Vec::new();
        let mut j: usize = 0;
        assert(cs.take(0).filter(cp) =~= Seq::<SettingsCategory>::empty()) by {
            reveal(Seq::filter);
        }
        while j < self.categories.len()
            invariant
                j <= cs.len(),
                cs == self.categories@,
                cp == (|c: SettingsCategory| c.owner@ != owner@),
                kept@ == cs.take(j as int).filter(cp),
            decreases cs.len() - j,
        {
            proof {
                assert(cs.take(j + 1) =~= cs.take(j as int).push(cs[j as int]));
                cs.take(j as int).lemma_filter_push(cs[j as int], cp);
            }
            if !str_eq(self.categories[j].owner.as_str(), owner) {
                let c = self.categories[j].duplicate();
                kept.push(c);
            }
            j = j + 1;
        }
        assert(cs.take(j as int) =~= cs);
        self.categories = kept;
    }
}

fn score_of(key: &str, schema: &SettingUISchema, q: &str) -> (r: i32)
    requires
        schema.tags@.len() <= 429_496_692,
    ensures
        r as int == setting_score(key@, schema@, q@),
{
    let mut score: i32 = 0;
    let k = to_lowercase(key);
    if contains(k.as_str(), q) {
        score = score + 100;
    }
    let t = to_lowercase(schema.title.as_str());
    if contains(t.as_str(), q) {
        score = score + 50;
    }
    if let Some(d) = &schema.description {
        let dl = to_lowercase(d.as_str());
        if contains(dl.as_str(), q) {
            score = score + 25;
        }
    }
    let c = to_lowercase(schema.category.as_str());
    if contains(c.as_str(), q) {
        score = score + 10;
    }
    let ghost base = score as int;
    let mut i: usize = 0;
    while i < schema.tags.len()
        invariant
            i <= schema.tags@.len(),
            schema.tags@.len() <= 429_496_692,
            0 <= base <= 185,
            score as int == base + 5 * tag_hits(schema.tags@.take(i as int), q@),
            tag_hits(schema.tags@.take(i as int), q@) <= i,
        decreases schema.tags@.len() - i,
    {
        assert(schema.tags@.take(i + 1).drop_last() =~= schema.tags@.take(i as int));
        let tl = to_lowercase(schema.tags[i].as_str());
        if contains(tl.as_str(), q) {
            score = score + 5;
        }
        i = i + 1;
    }
    assert(schema.tags@.take(i as int) =~= schema.tags@);
    score
}

/// The view of an optional JSON value.
pub open spec fn value_view(v: Option<JsonValue>) -> Option<JsonView> {
    match v {
        Some(x) => Some(x@),
        None => None,
    }
}

/// The schemas of one category, in schema order.
pub open spec fn in_category(schemas: Seq<(Seq<char>, UISchemaView)>, category: Seq<char>) -> Seq<(Seq<char>, UISchemaView)> {
    schemas.filter(|e: (Seq<char>, UISchemaView)| e.1.category == category)
}

/// Settings of a category, by their `order`, schema order among equals.
pub open spec fn order_key() -> spec_fn((Seq<char>, UISchemaView)) -> (int, Seq<char>) {
    |e: (Seq<char>, UISchemaView)| (e.1.order as int, Seq::<char>::empty())
}

impl SettingsUIRegistry {
    /// The settings of a category by their `order`, each with its user and
    /// workspace values.
    pub fn get_settings_by_category(&self, category_id: &str, config: &ConfigurationRegistry) -> (r: Vec<SettingWithValue>)
        ensures
            r@.map_values(|s: SettingWithValue| (s.key@, s.schema@)) == ranked_sort(
                in_category(self.schemas(), category_id@),
                order_key(),
            ),
            forall|i: int| 0 <= i < r@.len() ==> value_view((#[trigger] r@[i]).user_value) == scope_value(
                config.user(),
                config.workspace(),
                r@[i].key@,
                ConfigurationScope::User,
            ) && value_view(r@[i].workspace_value) == scope_value(
                config.user(),
                config.workspace(),
                r@[i].key@,
                ConfigurationScope::Workspace,
            ),
    {
        let ghost d = self.ui_schemas.entries();
        let ghost p = |e: (Seq<char>, UISchemaView)| e.1.category == category_id@;
        let ghost key = order_key();
        let mut out: Vec<SettingWithValue> = Vec::new();
        let mut i: usize = 0;
        assert(d.take(0).filter(p) =~= Seq::<(Seq<char>, UISchemaView)>::empty()) by {
            reveal(Seq::filter);
        }
        while i < self.ui_schemas.len()
            invariant
                i <= d.len(),
                d == self.ui_schemas.entries(),
                p == (|e: (Seq<char>, UISchemaView)| e.1.category == category_id@),
                key == order_key(),
                out@.map_values(|s: SettingWithValue| (s.key@, s.schema@)) == ranked_sort(d.take(i as int).filter(p), key),
                forall|k: int| 0 <= k < out@.len() ==> value_view((#[trigger] out@[k]).user_value) == scope_value(
                    config.user(),
                    config.workspace(),
                    out@[k].key@,
                    ConfigurationScope::User,
                ) && value_view(out@[k].workspace_value) == scope_value(
                    config.user(),
                    config.workspace(),
                    out@[k].key@,
                    ConfigurationScope::Workspace,
                ),
            decreases d.len() - i,
        {
            proof {
                assert(d.take(i + 1) =~= d.take(i as int).push(d[i as int]));
                d.take(i as int).lemma_filter_push(d[i as int], p);
            }
            let (k, schema) = self.ui_schemas.entry_at(i);
            if str_eq(schema.category.as_str(), category_id) {
                let user_value = match config.get_configuration(k.as_str(), ConfigurationScope::User) {
                    Ok(v) => v,
                    Err(_) => None,
                };
                let workspace_value = match config.get_configuration(k.as_str(), ConfigurationScope::Workspace) {
                    Ok(v) => v,
                    Err(_) => None,
                };
                let item = SettingWithValue { key: k.clone(), schema: schema.duplicate(), user_value, workspace_value };
                let ghost iv = (item.key@, item.schema@);
                let ghost before = out@.map_values(|s: SettingWithValue| (s.key@, s.schema@));
                let ghost filtered = d.take(i as int).filter(p);
                let mut j: usize = out.len();
                assert(before.take(j as int) =~= before);
                while j > 0 && item.schema.order < out[j - 1].schema.order
                    invariant
                        j <= out@.len(),
                        before == out@.map_values(|s: SettingWithValue| (s.key@, s.schema@)),
                        iv == (item.key@, item.schema@),
                        key == order_key(),
                        ranked_insertion_point(before, iv, key) == ranked_insertion_point(before.take(j as int), iv, key),
                    decreases j,
                {
                    assert(before.take(j as int).drop_last() =~= before.take(j - 1));
                    assert(before.take(j as int).last() == before[j - 1]);
                    j = j - 1;
                }
                proof {
                    crate::order::lemma_seq_lt_irreflexive(Seq::<char>::empty());
                    if j > 0 {
                        assert(before.take(j as int).last() == before[j - 1]);
                    }
                    assert(filtered.push(iv).drop_last() =~= filtered);
                }
                let ghost outs = out@;
                out.insert(j, item);
                assert(out@.map_values(|s: SettingWithValue| (s.key@, s.schema@)) =~= before.insert(j as int, iv));
                assert forall|k: int| 0 <= k < out@.len() implies value_view((#[trigger] out@[k]).user_value) == scope_value(
                    config.user(),
                    config.workspace(),
                    out@[k].key@,
                    ConfigurationScope::User,
                ) && value_view(out@[k].workspace_value) == scope_value(
                    config.user(),
                    config.workspace(),
                    out@[k].key@,
                    ConfigurationScope::Workspace,
                ) by {
                    if k < j {
                        assert(out@[k] == outs[k]);
                    } else if k > j {
                        assert(out@[k] == outs[k - 1]);
                    }
                }
            }
            i = i + 1;
        }
        assert(d.take(i as int) =~= d);
        out
    }

    /// A setting's schema with its user and workspace values.
    pub fn get_setting_with_values(&self, key: &str, config: &ConfigurationRegistry) -> (r: Result<SettingWithValue, String>)
        ensures
            match lookup(self.schemas(), key@) {
                Some(s) => r matches Ok(v) && v.key@ == key@ && v.schema@ == s
                    && value_view(v.user_value) == scope_value(config.user(), config.workspace(), key@, ConfigurationScope::User)
                    && value_view(v.workspace_value) == scope_value(config.user(), config.workspace(), key@, ConfigurationScope::Workspace),
                None => r matches Err(m) && m@ == setting_missing(key@),
            },
    {
        let schema = match self.ui_schemas.get(key) {
            Some(s) => s,
            None => {
                return Err(quoted("Setting '", key, "' not found"));
            },
        };
        let user_value = match config.get_configuration(key, ConfigurationScope::User) {
            Ok(v) => v,
            Err(_) => None,
        };
        let workspace_value = match config.get_configuration(key, ConfigurationScope::Workspace) {
            Ok(v) => v,
            Err(_) => None,
        };
        Ok(SettingWithValue { key: owned(key), schema, user_value, workspace_value })
    }

    /// The value a setting resolves to from `scope`; null when nothing gives one.
    pub fn get_effective_value(&self, key: &str, scope: ConfigurationScope, config: &ConfigurationRegistry) -> (r: Result<JsonValue, String>)
        ensures
            r matches Ok(v) && v@ == match resolved_value(config.schemas(), config.user(), config.workspace(), key@, scope) {
                Some(x) => x,
                None => JsonView::Null,
            },
    {
        match config.get_configuration_with_fallback(key, scope) {
            Ok(Some(v)) => Ok(v),
            _ => Ok(JsonValue::Null),
        }
    }

    /// Stores a setting's value in a scope.
    pub fn update_setting_value(&self, key: &str, value: JsonValue, scope: ConfigurationScope, config: &mut ConfigurationRegistry) -> (r: Result<crate::configuration::ConfigurationChangeEvent, CoreError>)
        requires
            old(config).wf(),
        ensures
            final(config).wf(),
            crate::configuration::update_result(*old(config), *final(config), key@, value@, scope, r),
    {
        config.update_configuration(owned(key), value, scope)
    }

    /// Stores a setting's default value in a scope.
    pub fn reset_setting_to_default(&self, key: &str, scope: ConfigurationScope, config: &mut ConfigurationRegistry) -> (r: Result<crate::configuration::ConfigurationChangeEvent, CoreError>)
        requires
            old(config).wf(),
        ensures
            final(config).wf(),
            final(config).schemas() == old(config).schemas(),
            lookup(self.schemas(), key@) matches Some(s) ==> crate::configuration::update_result(
                *old(config),
                *final(config),
                key@,
                s.default,
                scope,
                r,
            ),
            lookup(self.schemas(), key@) is None ==> (r matches Err(CoreError::Config(m)) && m@ == setting_missing(key@))
                && final(config).user() == old(config).user() && final(config).workspace() == old(config).workspace(),
    {
        match self.ui_schemas.get_ref(key) {
            Some(schema) => config.update_configuration(owned(key), schema.default.duplicate(), scope),
            None => Err(CoreError::Config(quoted("Setting '", key, "' not found"))),
        }
    }
}

} // verus!
