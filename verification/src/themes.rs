//! Color, icon and product icon themes, and which of each is active.
use vstd::prelude::*;
use crate::store::{Duplicate, Owned, Store, views, duplicate_all, lookup, store_insert, store_remove, distinct_keys, values_of, not_owned_entry};
use crate::text::{clone_opt, clone_strings, concat, owned};
use crate::tasks::clone_pairs;
use crate::textdocument::CoreError;

verus! {

#[derive(Clone, Copy, Debug, PartialEq, Eq, Structural)]
pub enum ThemeType {
    Light,
    Dark,
    HighContrast,
    HighContrastLight,
}

/// A color theme contributed by an extension.
pub struct ColorTheme {
    pub id: String,
    pub label: String,
    pub owner: String,
    pub theme_type: ThemeType,
    /// Workbench colors, each key with its color.
    pub colors: Vec<(String, String)>,
    pub token_colors: Vec<TokenColor>,
}

/// Mathematical form of a [`ColorTheme`].
pub struct ColorThemeView {
    pub id: Seq<char>,
    pub label: Seq<char>,
    pub owner: Seq<char>,
    pub theme_type: ThemeType,
    pub colors: Seq<(String, String)>,
    pub token_colors: Seq<TokenColorView>,
}

/// How tokens of some scopes are colored.
pub struct TokenColor {
    pub name: Option<String>,
    pub scope: Vec<String>,
    pub settings: TokenColorSettings,
}

/// Mathematical form of a [`TokenColor`].
pub struct TokenColorView {
    pub name: Option<String>,
    pub scope: Seq<String>,
    pub settings: TokenColorSettings,
}

pub struct TokenColorSettings {
    pub foreground: Option<String>,
    pub background: Option<String>,
    pub font_style: Option<String>,
}

/// An icon theme contributed by an extension.
pub struct IconTheme {
    pub id: String,
    pub label: String,
    pub owner: String,
    pub icon_definitions: Vec<(String, IconDefinition)>,
    pub file_associations: Vec<(String, String)>,
    pub folder_associations: Vec<(String, String)>,
    pub file_extensions: Vec<(String, String)>,
    pub language_ids: Vec<(String, String)>,
}

/// Mathematical form of an [`IconTheme`].
pub struct IconThemeView {
    pub id: Seq<char>,
    pub label: Seq<char>,
    pub owner: Seq<char>,
    pub icon_definitions: Seq<(String, IconDefinition)>,
    pub file_associations: Seq<(String, String)>,
    pub folder_associations: Seq<(String, String)>,
    pub file_extensions: Seq<(String, String)>,
    pub language_ids: Seq<(String, String)>,
}

pub struct IconDefinition {
    pub icon_path: String,
}

/// A product icon theme contributed by an extension.
pub struct ProductIconTheme {
    pub id: String,
    pub label: String,
    pub owner: String,
    pub icon_definitions: Vec<(String, ProductIconDefinition)>,
}

/// Mathematical form of a [`ProductIconTheme`].
pub struct ProductIconThemeView {
    pub id: Seq<char>,
    pub label: Seq<char>,
    pub owner: Seq<char>,
    pub icon_definitions: Seq<(String, ProductIconDefinition)>,
}

pub struct ProductIconDefinition {
    pub font_character: String,
    pub font_color: Option<String>,
}

/// The active theme of each kind.
pub struct ThemeSettings {
    pub active_color_theme: Option<String>,
    pub active_icon_theme: Option<String>,
    pub active_product_icon_theme: Option<String>,
}

/// A theme became active; `theme_type` is `color`, `icon` or `product-icon`.
pub struct ThemeChangeEvent {
    pub theme_id: String,
    pub theme_type: String,
}

impl View for TokenColor {
    type V = TokenColorView;

    open spec fn view(&self) -> TokenColorView {
        TokenColorView { name: self.name, scope: self.scope@, settings: self.settings }
    }
}

impl Duplicate for TokenColor {
    fn duplicate(&self) -> (r: Self) {
        TokenColor {
            name: clone_opt(&self.name),
            scope: clone_strings(&self.scope),
            settings: TokenColorSettings {
                foreground: clone_opt(&self.settings.foreground),
                background: clone_opt(&self.settings.background),
                font_style: clone_opt(&self.settings.font_style),
            },
        }
    }
}

impl View for ColorTheme {
    type V = ColorThemeView;

    open spec fn view(&self) -> ColorThemeView {
        ColorThemeView {
            id: self.id@,
            label: self.label@,
            owner: self.owner@,
            theme_type: self.theme_type,
            colors: self.colors@,
            token_colors: views(self.token_colors@),
        }
    }
}

impl Duplicate for ColorTheme {
    fn duplicate(&self) -> (r: Self) {
        let t = duplicate_all(&self.token_colors);
        assert(views(t@) =~= views(self.token_colors@));
        ColorTheme {
            id: self.id.clone(),
            label: self.label.clone(),
            owner: self.owner.clone(),
            theme_type: self.theme_type,
            colors: clone_pairs(&self.colors),
            token_colors: t,
        }
    }
}

impl Owned for ColorTheme {
    open spec fn owner_of(v: ColorThemeView) -> Seq<char> {
        v.owner
    }

    fn owner_name(&self) -> (r: &str) {
        self.owner.as_str()
    }
}

fn clone_icon_definitions(v: &Vec<(String, IconDefinition)>) -> (r: Vec<(String, IconDefinition)>)
    ensures
        r@ == v@,
{
    let mut r: Vec<(String, IconDefinition)> = Vec::new();
    let mut i: usize = 0;
    while i < v.len()
        invariant
            i <= v@.len(),
            r@ == v@.take(i as int),
        decreases v@.len() - i,
    {
        r.push((v[i].0.clone(), IconDefinition { icon_path: v[i].1.icon_path.clone() }));
        assert(v@.take(i as int).push(v@[i as int]) =~= v@.take(i + 1));
        i = i + 1;
    }
    assert(v@.take(v@.len() as int) =~= v@);
    r
}

fn clone_product_definitions(v: &Vec<(String, ProductIconDefinition)>) -> (r: Vec<
    (String, ProductIconDefinition),
>)
    ensures
        r@ == v@,
{
    let mut r: Vec<(String, ProductIconDefinition)> = Vec::new();
    let mut i: usize = 0;
    while i < v.len()
        invariant
            i <= v@.len(),
            r@ == v@.take(i as int),
        decreases v@.len() - i,
    {
        r.push(
            (
                v[i].0.clone(),
                ProductIconDefinition {
                    font_character: v[i].1.font_character.clone(),
                    font_color: clone_opt(&v[i].1.font_color),
                },
            ),
        );
        assert(v@.take(i as int).push(v@[i as int]) =~= v@.take(i + 1));
        i = i + 1;
    }
    assert(v@.take(v@.len() as int) =~= v@);
    r
}

impl View for IconTheme {
    type V = IconThemeView;

    open spec fn view(&self) -> IconThemeView {
        IconThemeView {
            id: self.id@,
            label: self.label@,
            owner: self.owner@,
            icon_definitions: self.icon_definitions@,
            file_associations: self.file_associations@,
            folder_associations: self.folder_associations@,
            file_extensions: self.file_extensions@,
            language_ids: self.language_ids@,
        }
    }
}

impl Duplicate for IconTheme {
    fn duplicate(&self) -> (r: Self) {
        IconTheme {
            id: self.id.clone(),
            label: self.label.clone(),
            owner: self.owner.clone(),
            icon_definitions: clone_icon_definitions(&self.icon_definitions),
            file_associations: clone_pairs(&self.file_associations),
            folder_associations: clone_pairs(&self.folder_associations),
            file_extensions: clone_pairs(&self.file_extensions),
            language_ids: clone_pairs(&self.language_ids),
        }
    }
}

impl Owned for IconTheme {
    open spec fn owner_of(v: IconThemeView) -> Seq<char> {
        v.owner
    }

    fn owner_name(&self) -> (r: &str) {
        self.owner.as_str()
    }
}

impl View for ProductIconTheme {
    type V = ProductIconThemeView;

    open spec fn view(&self) -> ProductIconThemeView {
        ProductIconThemeView {
            id: self.id@,
            label: self.label@,
            owner: self.owner@,
            icon_definitions: self.icon_definitions@,
        }
    }
}

impl Duplicate for ProductIconTheme {
    fn duplicate(&self) -> (r: Self) {
        ProductIconTheme {
            id: self.id.clone(),
            label: self.label.clone(),
            owner: self.owner.clone(),
            icon_definitions: clone_product_definitions(&self.icon_definitions),
        }
    }
}

impl Owned for ProductIconTheme {
    open spec fn owner_of(v: ProductIconThemeView) -> Seq<char> {
        v.owner
    }

    fn owner_name(&self) -> (r: &str) {
        self.owner.as_str()
    }
}

pub open spec fn theme_missing(kind: Seq<char>, id: Seq<char>) -> Seq<char> {
    kind + " not found: "@ + id
}

fn theme_missing_error(kind: &str, id: &str) -> (r: CoreError)
    ensures
        r matches CoreError::Config(m) && m@ == theme_missing(kind@, id@),
{
    let a = concat(kind, " not found: ");
    CoreError::Config(concat(a.as_str(), id))
}

/// The theme stored under the active id, if there is one.
pub open spec fn active_theme<V>(entries: Seq<(Seq<char>, V)>, active: Option<String>) -> Option<V> {
    match active {
        Some(id) => lookup(entries, id@),
        None => None,
    }
}

/// Themes of each kind by id, and the active theme of each kind.
pub struct ThemeRegistry {
    color_themes: Store<ColorTheme>,
    icon_themes: Store<IconTheme>,
    product_icon_themes: Store<ProductIconTheme>,
    theme_settings: ThemeSettings,
}

impl ThemeRegistry {
    pub closed spec fn color_themes(&self) -> Seq<(Seq<char>, ColorThemeView)> {
        self.color_themes.entries()
    }

    pub closed spec fn icon_themes(&self) -> Seq<(Seq<char>, IconThemeView)> {
        self.icon_themes.entries()
    }

    pub closed spec fn product_icon_themes(&self) -> Seq<(Seq<char>, ProductIconThemeView)> {
        self.product_icon_themes.entries()
    }

    pub closed spec fn settings(&self) -> ThemeSettings {
        self.theme_settings
    }

    pub open spec fn wf(&self) -> bool {
        &&& distinct_keys(self.color_themes())
        &&& distinct_keys(self.icon_themes())
        &&& distinct_keys(self.product_icon_themes())
    }

    /// A registry with no themes and none active.
    pub fn new() -> (r: Self)
        ensures
            r.wf(),
            r.color_themes().len() == 0,
            r.icon_themes().len() == 0,
            r.product_icon_themes().len() == 0,
            r.settings() == (ThemeSettings {
                active_color_theme: None,
                active_icon_theme: None,
                active_product_icon_theme: None,
            }),
    {
        ThemeRegistry {
            color_themes: Store::new(),
            icon_themes: Store::new(),
            product_icon_themes: Store::new(),
            theme_settings: ThemeSettings {
                active_color_theme: None,
                active_icon_theme: None,
                active_product_icon_theme: None,
            },
        }
    }

    /// Records a color theme under its id; gives back the id.
    pub fn register_color_theme(&mut self, theme: ColorTheme) -> (r: Result<String, CoreError>)
        requires
            old(self).wf(),
        ensures
            final(self).wf(),
            final(self).color_themes() == store_insert(old(self).color_themes(), theme@.id, theme@),
            final(self).icon_themes() == old(self).icon_themes(),
            final(self).product_icon_themes() == old(self).product_icon_themes(),
            final(self).settings() == old(self).settings(),
            r matches Ok(id) && id@ == theme@.id,
    {
        let id = theme.id.clone();
        let key = theme.id.clone();
        self.color_themes.insert(key, theme);
        Ok(id)
    }

    /// Removes a color theme.
    pub fn unregister_color_theme(&mut self, theme_id: &str) -> (r: Result<(), CoreError>)
        requires
            old(self).wf(),
        ensures
            final(self).wf(),
            final(self).color_themes() == store_remove(old(self).color_themes(), theme_id@),
            final(self).icon_themes() == old(self).icon_themes(),
            final(self).product_icon_themes() == old(self).product_icon_themes(),
            final(self).settings() == old(self).settings(),
            lookup(old(self).color_themes(), theme_id@) is Some <==> r is Ok,
            r is Err ==> (r matches Err(CoreError::Config(m)) && m@ == theme_missing("Color theme"@, theme_id@)),
    {
        match self.color_themes.remove(theme_id) {
            Some(_) => Ok(()),
            None => Err(theme_missing_error("Color theme", theme_id)),
        }
    }

    /// A copy of a color theme.
    pub fn get_color_theme(&self, theme_id: &str) -> (r: Result<ColorTheme, CoreError>)
        ensures
            match lookup(self.color_themes(), theme_id@) {
                Some(t) => r matches Ok(got) && got@ == t,
                None => r matches Err(CoreError::Config(m)) && m@ == theme_missing("Color theme"@, theme_id@),
            },
    {
        match self.color_themes.get(theme_id) {
            Some(t) => Ok(t),
            None => Err(theme_missing_error("Color theme", theme_id)),
        }
    }

    pub fn get_all_color_themes(&self) -> (r: Vec<ColorTheme>)
        ensures
            views(r@) == values_of(self.color_themes()),
    {
        self.color_themes.values()
    }

    /// Copies of the color themes of one type.
    pub fn get_color_themes_by_type(&self, theme_type: ThemeType) -> (r: Vec<ColorTheme>)
        ensures
            views(r@) == values_of(self.color_themes()).filter(
                |t: ColorThemeView| t.theme_type == theme_type,
            ),
    {
        let all = self.color_themes.values();
        let ghost s = views(all@);
        let ghost p = |t: ColorThemeView| t.theme_type == theme_type;
        let mut out: Vec<ColorTheme> = Vec::new();
        let mut i: usize = 0;
        assert(s.take(0).filter(p) =~= Seq::<ColorThemeView>::empty()) by {
            reveal(Seq::filter);
        }
        while i < all.len()
            invariant
                i <= all@.len(),
                s == views(all@),
                p == (|t: ColorThemeView| t.theme_type == theme_type),
                views(out@) == s.take(i as int).filter(p),
            decreases all@.len() - i,
        {
            proof {
                assert(s.take(i + 1) =~= s.take(i as int).push(s[i as int]));
                s.take(i as int).lemma_filter_push(s[i as int], p);
            }
            if all[i].theme_type == theme_type {
                let c = all[i].duplicate();
                out.push(c);
                assert(views(out@) =~= s.take(i as int).filter(p).push(s[i as int]));
            }
            i = i + 1;
        }
        assert(s.take(i as int) =~= s);
        out
    }

    /// Makes a registered color theme the active one; gives back the event to announce.
    pub fn set_active_color_theme(&mut self, theme_id: String) -> (r: Result<ThemeChangeEvent, CoreError>)
        requires
            old(self).wf(),
        ensures
            final(self).wf(),
            final(self).color_themes() == old(self).color_themes(),
            final(self).icon_themes() == old(self).icon_themes(),
            final(self).product_icon_themes() == old(self).product_icon_themes(),
            lookup(old(self).color_themes(), theme_id@) is Some ==> {
                &&& r matches Ok(ev) && ev.theme_id@ == theme_id@ && ev.theme_type@ == "color"@
                &&& final(self).settings() == (ThemeSettings {
                    active_color_theme: Some(theme_id),
                    ..old(self).settings()
                })
            },
            lookup(old(self).color_themes(), theme_id@) is None ==> {
                &&& r matches Err(CoreError::Config(m)) && m@ == theme_missing("Color theme"@, theme_id@)
                &&& final(self).settings() == old(self).settings()
            },
    {
        if !self.color_themes.contains_key(theme_id.as_str()) {
            return Err(theme_missing_error("Color theme", theme_id.as_str()));
        }
        let event = ThemeChangeEvent { theme_id: theme_id.clone(), theme_type: owned("color") };
        self.theme_settings.active_color_theme = Some(theme_id);
        Ok(event)
    }

    /// A copy of the active color theme, when one is active and registered.
    pub fn get_active_color_theme(&self) -> (r: Option<ColorTheme>)
        ensures
            match active_theme(self.color_themes(), self.settings().active_color_theme) {
                Some(t) => r matches Some(got) && got@ == t,
                None => r is None,
            },
    {
        match &self.theme_settings.active_color_theme {
            Some(id) => self.color_themes.get(id.as_str()),
            None => None,
        }
    }

    /// Records an icon theme under its id; gives back the id.
    pub fn register_icon_theme(&mut self, theme: IconTheme) -> (r: Result<String, CoreError>)
        requires
            old(self).wf(),
        ensures
            final(self).wf(),
            final(self).icon_themes() == store_insert(old(self).icon_themes(), theme@.id, theme@),
            final(self).color_themes() == old(self).color_themes(),
            final(self).product_icon_themes() == old(self).product_icon_themes(),
            final(self).settings() == old(self).settings(),
            r matches Ok(id) && id@ == theme@.id,
    {
        let id = theme.id.clone();
        let key = theme.id.clone();
        self.icon_themes.insert(key, theme);
        Ok(id)
    }

    pub fn unregister_icon_theme(&mut self, theme_id: &str) -> (r: Result<(), CoreError>)
        requires
            old(self).wf(),
        ensures
            final(self).wf(),
            final(self).icon_themes() == store_remove(old(self).icon_themes(), theme_id@),
            final(self).color_themes() == old(self).color_themes(),
            final(self).product_icon_themes() == old(self).product_icon_themes(),
            final(self).settings() == old(self).settings(),
            lookup(old(self).icon_themes(), theme_id@) is Some <==> r is Ok,
            r is Err ==> (r matches Err(CoreError::Config(m)) && m@ == theme_missing("Icon theme"@, theme_id@)),
    {
        match self.icon_themes.remove(theme_id) {
            Some(_) => Ok(()),
            None => Err(theme_missing_error("Icon theme", theme_id)),
        }
    }

    pub fn get_icon_theme(&self, theme_id: &str) -> (r: Result<IconTheme, CoreError>)
        ensures
            match lookup(self.icon_themes(), theme_id@) {
                Some(t) => r matches Ok(got) && got@ == t,
                None => r matches Err(CoreError::Config(m)) && m@ == theme_missing("Icon theme"@, theme_id@),
            },
    {
        match self.icon_themes.get(theme_id) {
            Some(t) => Ok(t),
            None => Err(theme_missing_error("Icon theme", theme_id)),
        }
    }

    pub fn get_all_icon_themes(&self) -> (r: Vec<IconTheme>)
        ensures
            views(r@) == values_of(self.icon_themes()),
    {
        self.icon_themes.values()
    }

    /// Makes a registered icon theme the active one; gives back the event to announce.
    pub fn set_active_icon_theme(&mut self, theme_id: String) -> (r: Result<ThemeChangeEvent, CoreError>)
        requires
            old(self).wf(),
        ensures
            final(self).wf(),
            final(self).color_themes() == old(self).color_themes(),
            final(self).icon_themes() == old(self).icon_themes(),
            final(self).product_icon_themes() == old(self).product_icon_themes(),
            lookup(old(self).icon_themes(), theme_id@) is Some ==> {
                &&& r matches Ok(ev) && ev.theme_id@ == theme_id@ && ev.theme_type@ == "icon"@
                &&& final(self).settings() == (ThemeSettings {
                    active_icon_theme: Some(theme_id),
                    ..old(self).settings()
                })
            },
            lookup(old(self).icon_themes(), theme_id@) is None ==> {
                &&& r matches Err(CoreError::Config(m)) && m@ == theme_missing("Icon theme"@, theme_id@)
                &&& final(self).settings() == old(self).settings()
            },
    {
        if !self.icon_themes.contains_key(theme_id.as_str()) {
            return Err(theme_missing_error("Icon theme", theme_id.as_str()));
        }
        let event = ThemeChangeEvent { theme_id: theme_id.clone(), theme_type: owned("icon") };
        self.theme_settings.active_icon_theme = Some(theme_id);
        Ok(event)
    }

    pub fn get_active_icon_theme(&self) -> (r: Option<IconTheme>)
        ensures
            match active_theme(self.icon_themes(), self.settings().active_icon_theme) {
                Some(t) => r matches Some(got) && got@ == t,
                None => r is None,
            },
    {
        match &self.theme_settings.active_icon_theme {
            Some(id) => self.icon_themes.get(id.as_str()),
            None => None,
        }
    }

    /// Records a product icon theme under its id; gives back the id.
    pub fn register_product_icon_theme(&mut self, theme: ProductIconTheme) -> (r: Result<
        String,
        CoreError,
    >)
        requires
            old(self).wf(),
        ensures
            final(self).wf(),
            final(self).product_icon_themes() == store_insert(
                old(self).product_icon_themes(),
                theme@.id,
                theme@,
            ),
            final(self).color_themes() == old(self).color_themes(),
            final(self).icon_themes() == old(self).icon_themes(),
            final(self).settings() == old(self).settings(),
            r matches Ok(id) && id@ == theme@.id,
    {
        let id = theme.id.clone();
        let key = theme.id.clone();
        self.product_icon_themes.insert(key, theme);
        Ok(id)
    }

    pub fn unregister_product_icon_theme(&mut self, theme_id: &str) -> (r: Result<(), CoreError>)
        requires
            old(self).wf(),
        ensures
            final(self).wf(),
            final(self).product_icon_themes() == store_remove(
                old(self).product_icon_themes(),
                theme_id@,
            ),
            final(self).color_themes() == old(self).color_themes(),
            final(self).icon_themes() == old(self).icon_themes(),
            final(self).settings() == old(self).settings(),
            lookup(old(self).product_icon_themes(), theme_id@) is Some <==> r is Ok,
            r is Err ==> (r matches Err(CoreError::Config(m)) && m@ == theme_missing(
                "Product icon theme"@,
                theme_id@,
            )),
    {
        match self.product_icon_themes.remove(theme_id) {
            Some(_) => Ok(()),
            None => Err(theme_missing_error("Product icon theme", theme_id)),
        }
    }

    pub fn get_product_icon_theme(&self, theme_id: &str) -> (r: Result<ProductIconTheme, CoreError>)
        ensures
            match lookup(self.product_icon_themes(), theme_id@) {
                Some(t) => r matches Ok(got) && got@ == t,
                None => r matches Err(CoreError::Config(m)) && m@ == theme_missing(
                    "Product icon theme"@,
                    theme_id@,
                ),
            },
    {
        match self.product_icon_themes.get(theme_id) {
            Some(t) => Ok(t),
            None => Err(theme_missing_error("Product icon theme", theme_id)),
        }
    }

    pub fn get_all_product_icon_themes(&self) -> (r: Vec<ProductIconTheme>)
        ensures
            views(r@) == values_of(self.product_icon_themes()),
    {
        self.product_icon_themes.values()
    }

    /// Makes a registered product icon theme the active one; gives back the
    /// event to announce.
    pub fn set_active_product_icon_theme(&mut self, theme_id: String) -> (r: Result<
        ThemeChangeEvent,
        CoreError,
    >)
        requires
            old(self).wf(),
        ensures
            final(self).wf(),
            final(self).color_themes() == old(self).color_themes(),
            final(self).icon_themes() == old(self).icon_themes(),
            final(self).product_icon_themes() == old(self).product_icon_themes(),
            lookup(old(self).product_icon_themes(), theme_id@) is Some ==> {
                &&& r matches Ok(ev) && ev.theme_id@ == theme_id@ && ev.theme_type@ == "product-icon"@
                &&& final(self).settings() == (ThemeSettings {
                    active_product_icon_theme: Some(theme_id),
                    ..old(self).settings()
                })
            },
            lookup(old(self).product_icon_themes(), theme_id@) is None ==> {
                &&& r matches Err(CoreError::Config(m)) && m@ == theme_missing(
                    "Product icon theme"@,
                    theme_id@,
                )
                &&& final(self).settings() == old(self).settings()
            },
    {
        if !self.product_icon_themes.contains_key(theme_id.as_str()) {
            return Err(theme_missing_error("Product icon theme", theme_id.as_str()));
        }
        let event = ThemeChangeEvent { theme_id: theme_id.clone(), theme_type: owned("product-icon") };
        self.theme_settings.active_product_icon_theme = Some(theme_id);
        Ok(event)
    }

    pub fn get_active_product_icon_theme(&self) -> (r: Option<ProductIconTheme>)
        ensures
            match active_theme(self.product_icon_themes(), self.settings().active_product_icon_theme) {
                Some(t) => r matches Some(got) && got@ == t,
                None => r is None,
            },
    {
        match &self.theme_settings.active_product_icon_theme {
            Some(id) => self.product_icon_themes.get(id.as_str()),
            None => None,
        }
    }

    /// A copy of the active theme settings.
    pub fn get_theme_settings(&self) -> (r: ThemeSettings)
        ensures
            r == self.settings(),
    {
        ThemeSettings {
            active_color_theme: clone_opt(&self.theme_settings.active_color_theme),
            active_icon_theme: clone_opt(&self.theme_settings.active_icon_theme),
            active_product_icon_theme: clone_opt(&self.theme_settings.active_product_icon_theme),
        }
    }

    /// Removes the themes contributed by `owner`; the settings are kept.
    pub fn clear_theme_data(&mut self, owner: &str)
        requires
            old(self).wf(),
        ensures
            final(self).wf(),
            final(self).color_themes() == old(self).color_themes().filter(
                not_owned_entry::<ColorTheme>(owner@),
            ),
            final(self).icon_themes() == old(self).icon_themes().filter(
                not_owned_entry::<IconTheme>(owner@),
            ),
            final(self).product_icon_themes() == old(self).product_icon_themes().filter(
                not_owned_entry::<ProductIconTheme>(owner@),
            ),
            final(self).settings() == old(self).settings(),
    {
        self.color_themes.retain_not_owned(owner);
        self.icon_themes.retain_not_owned(owner);
        self.product_icon_themes.retain_not_owned(owner);
    }
}

} // verus!
