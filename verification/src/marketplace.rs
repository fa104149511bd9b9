//! The marketplace side panel: featured extensions, categories, reviews and
//! the ratings drawn from them, recommendations and update notices.
use vstd::prelude::*;
use crate::store::{Duplicate, Store, views, duplicate_all, lookup, store_insert, distinct_keys};
use crate::text::{clone_opt, clone_strings, opt_view, owned, str_eq};

verus! {

/// A category extensions are filed under.
pub struct ExtensionCategory {
    pub id: String,
    pub name: String,
    pub description: Option<String>,
    pub icon: Option<String>,
}

/// Mathematical form of an [`ExtensionCategory`].
pub struct ExtensionCategoryView {
    pub id: Seq<char>,
    pub name: Seq<char>,
    pub description: Option<Seq<char>>,
    pub icon: Option<Seq<char>>,
}

impl View for ExtensionCategory {
    type V = ExtensionCategoryView;

    open spec fn view(&self) -> ExtensionCategoryView {
        ExtensionCategoryView {
            id: self.id@,
            name: self.name@,
            description: opt_view(self.description),
            icon: opt_view(self.icon),
        }
    }
}

impl Duplicate for ExtensionCategory {
    fn duplicate(&self) -> (r: Self) {
        ExtensionCategory {
            id: self.id.clone(),
            name: self.name.clone(),
            description: clone_opt(&self.description),
            icon: clone_opt(&self.icon),
        }
    }
}

/// A user's review of an extension.
pub struct ExtensionReview {
    pub author: String,
    /// Stars given, normally 1 to 5.
    pub rating: u8,
    pub title: Option<String>,
    pub comment: Option<String>,
    pub created_at: String,
    pub helpful_count: usize,
}

/// Mathematical form of an [`ExtensionReview`].
pub struct ExtensionReviewView {
    pub author: Seq<char>,
    pub rating: u8,
    pub title: Option<Seq<char>>,
    pub comment: Option<Seq<char>>,
    pub created_at: Seq<char>,
    pub helpful_count: usize,
}

impl View for ExtensionReview {
    type V = ExtensionReviewView;

    open spec fn view(&self) -> ExtensionReviewView {
        ExtensionReviewView {
            author: self.author@,
            rating: self.rating,
            title: opt_view(self.title),
            comment: opt_view(self.comment),
            created_at: self.created_at@,
            helpful_count: self.helpful_count,
        }
    }
}

impl Duplicate for ExtensionReview {
    fn duplicate(&self) -> (r: Self) {
        ExtensionReview {
            author: self.author.clone(),
            rating: self.rating,
            title: clone_opt(&self.title),
            comment: clone_opt(&self.comment),
            created_at: self.created_at.clone(),
            helpful_count: self.helpful_count,
        }
    }
}

/// The reviews of one extension, oldest first.
pub struct ReviewList {
    pub items: Vec<ExtensionReview>,
}

impl View for ReviewList {
    type V = Seq<ExtensionReviewView>;

    open spec fn view(&self) -> Seq<ExtensionReviewView> {
        views(self.items@)
    }
}

impl Duplicate for ReviewList {
    fn duplicate(&self) -> (r: Self) {
        let items = duplicate_all(&self.items);
        assert(views(items@) =~= views(self.items@));
        ReviewList { items }
    }
}

/// A list of extension ids.
pub struct IdList {
    pub ids: Vec<String>,
}

impl View for IdList {
    type V = Seq<Seq<char>>;

    open spec fn view(&self) -> Seq<Seq<char>> {
        views(self.ids@)
    }
}

impl Duplicate for IdList {
    fn duplicate(&self) -> (r: Self) {
        IdList { ids: clone_strings(&self.ids) }
    }
}

/// The ratings of an extension's reviews taken together: their sum, their
/// number (the average is the one over the other), and how many reviews
/// gave each rating, in the order ratings first occurred.
pub struct ExtensionRating {
    pub rating_sum: u128,
    pub total_ratings: usize,
    pub rating_distribution: Vec<(u8, usize)>,
}

/// Mathematical form of an [`ExtensionRating`].
pub struct ExtensionRatingView {
    pub rating_sum: int,
    pub total_ratings: nat,
    pub rating_distribution: Seq<(u8, nat)>,
}

impl View for ExtensionRating {
    type V = ExtensionRatingView;

    open spec fn view(&self) -> ExtensionRatingView {
        ExtensionRatingView {
            rating_sum: self.rating_sum as int,
            total_ratings: self.total_ratings as nat,
            rating_distribution: self.rating_distribution@.map_values(|e: (u8, usize)| (e.0, e.1 as nat)),
        }
    }
}

/// The ratings given by `reviews`, in order.
pub open spec fn ratings_of(reviews: Seq<ExtensionReviewView>) -> Seq<u8> {
    reviews.map_values(|r: ExtensionReviewView| r.rating)
}

/// The sum of `rs`.
pub open spec fn rating_sum(rs: Seq<u8>) -> int
    decreases rs.len(),
{
    if rs.len() == 0 {
        0
    } else {
        rating_sum(rs.drop_last()) + rs.last()
    }
}

/// Position of the entry for rating `r`, or the length when there is none.
pub open spec fn dist_index(d: Seq<(u8, nat)>, r: u8) -> int
    decreases d.len(),
{
    if d.len() == 0 {
        0
    } else if d[0].0 == r {
        0
    } else {
        1 + dist_index(d.drop_first(), r)
    }
}

/// How many times each rating occurs in `rs`, ratings in order of first occurrence.
pub open spec fn distribution(rs: Seq<u8>) -> Seq<(u8, nat)>
    decreases rs.len(),
{
    if rs.len() == 0 {
        Seq::empty()
    } else {
        let d = distribution(rs.drop_last());
        let i = dist_index(d, rs.last());
        if i < d.len() {
            d.update(i, (rs.last(), d[i].1 + 1))
        } else {
            d.push((rs.last(), 1))
        }
    }
}

/// The rating drawn from a non-empty list of reviews.
pub open spec fn rating_of(reviews: Seq<ExtensionReviewView>) -> ExtensionRatingView {
    ExtensionRatingView {
        rating_sum: rating_sum(ratings_of(reviews)),
        total_ratings: reviews.len(),
        rating_distribution: distribution(ratings_of(reviews)),
    }
}

proof fn lemma_dist_index(d: Seq<(u8, nat)>, r: u8, i: int)
    requires
        0 <= i <= d.len(),
        forall|j: int| 0 <= j < i ==> (#[trigger] d[j]).0 != r,
        i == d.len() || d[i].0 == r,
    ensures
        dist_index(d, r) == i,
    decreases d.len(),
{
    if d.len() > 0 && d[0].0 != r {
        assert forall|j: int| 0 <= j < i - 1 implies (#[trigger] d.drop_first()[j]).0 != r by {
            assert(d.drop_first()[j] == d[j + 1]);
        }
        lemma_dist_index(d.drop_first(), r, i - 1);
    }
}

/// How many reviews gave each rating: one entry per rating that occurs, in
/// order of first occurrence.
pub fn calculate_distribution(reviews: &Vec<ExtensionReview>) -> (r: Vec<(u8, usize)>)
    ensures
        r@.map_values(|e: (u8, usize)| (e.0, e.1 as nat)) == distribution(ratings_of(views(reviews@))),
{
    let ghost rs = ratings_of(views(reviews@));
    let mut d: Vec<(u8, usize)> = Vec::new();
    let mut i: usize = 0;
    assert(rs.take(0) =~= Seq::<u8>::empty());
    assert(d@.map_values(|e: (u8, usize)| (e.0, e.1 as nat)) =~= Seq::<(u8, nat)>::empty());
    while i < reviews.len()
        invariant
            i <= reviews@.len(),
            rs == ratings_of(views(reviews@)),
            d@.map_values(|e: (u8, usize)| (e.0, e.1 as nat)) == distribution(rs.take(i as int)),
            forall|j: int| 0 <= j < d@.len() ==> (#[trigger] d@[j]).1 <= i,
        decreases reviews@.len() - i,
    {
        let ghost dv = d@.map_values(|e: (u8, usize)| (e.0, e.1 as nat));
        let r = reviews[i].rating;
        assert(rs.take(i + 1).drop_last() =~= rs.take(i as int));
        assert(rs.take(i + 1).last() == r);
        let mut j: usize = 0;
        while j < d.len() && d[j].0 != r
            invariant
                j <= d@.len(),
                dv == d@.map_values(|e: (u8, usize)| (e.0, e.1 as nat)),
                forall|k: int| 0 <= k < j ==> (#[trigger] d@[k]).0 != r,
            decreases d@.len() - j,
        {
            j = j + 1;
        }
        proof {
            assert forall|k: int| 0 <= k < j implies (#[trigger] dv[k]).0 != r by {
                assert(dv[k].0 == d@[k].0);
            }
            lemma_dist_index(dv, r, j as int);
        }
        if j < d.len() {
            let c = d[j].1;
            d.set(j, (r, c + 1));
            assert(d@.map_values(|e: (u8, usize)| (e.0, e.1 as nat)) =~= dv.update(j as int, (r, dv[j as int].1 + 1)));
        } else {
            d.push((r, 1));
            assert(d@.map_values(|e: (u8, usize)| (e.0, e.1 as nat)) =~= dv.push((r, 1)));
        }
        i = i + 1;
    }
    assert(rs.take(reviews@.len() as int) =~= rs);
    d
}

/// The rating drawn from `reviews`: the sum, the number, and the distribution.
pub fn rating_from_reviews(reviews: &Vec<ExtensionReview>) -> (r: ExtensionRating)
    ensures
        r@ == rating_of(views(reviews@)),
{
    let ghost rs = ratings_of(views(reviews@));
    let mut sum: u128 = 0;
    let mut i: usize = 0;
    assert(rs.take(0) =~= Seq::<u8>::empty());
    while i < reviews.len()
        invariant
            i <= reviews@.len(),
            rs == ratings_of(views(reviews@)),
            sum == rating_sum(rs.take(i as int)),
            sum <= 255 * i,
        decreases reviews@.len() - i,
    {
        assert(rs.take(i + 1).drop_last() =~= rs.take(i as int));
        assert(rs.take(i + 1).last() == reviews@[i as int].rating);
        sum = sum + reviews[i].rating as u128;
        i = i + 1;
    }
    assert(rs.take(reviews@.len() as int) =~= rs);
    ExtensionRating {
        rating_sum: sum,
        total_ratings: reviews.len(),
        rating_distribution: calculate_distribution(reviews),
    }
}

} // verus!

verus! {

/// One page of an extension's reviews.
pub struct ReviewsPage {
    pub reviews: Vec<ExtensionReview>,
    pub page: usize,
    pub page_size: usize,
    pub total: usize,
    pub total_pages: usize,
}

/// A newer version of an installed extension.
pub struct UpdateNotification {
    pub extension_id: String,
    pub extension_name: String,
    pub current_version: String,
    pub latest_version: String,
    pub change_log: Option<String>,
    pub created_at: String,
}

/// Mathematical form of an [`UpdateNotification`].
pub struct UpdateNotificationView {
    pub extension_id: Seq<char>,
    pub extension_name: Seq<char>,
    pub current_version: Seq<char>,
    pub latest_version: Seq<char>,
    pub change_log: Option<Seq<char>>,
    pub created_at: Seq<char>,
}

impl View for UpdateNotification {
    type V = UpdateNotificationView;

    open spec fn view(&self) -> UpdateNotificationView {
        UpdateNotificationView {
            extension_id: self.extension_id@,
            extension_name: self.extension_name@,
            current_version: self.current_version@,
            latest_version: self.latest_version@,
            change_log: opt_view(self.change_log),
            created_at: self.created_at@,
        }
    }
}

impl Duplicate for UpdateNotification {
    fn duplicate(&self) -> (r: Self) {
        UpdateNotification {
            extension_id: self.extension_id.clone(),
            extension_name: self.extension_name.clone(),
            current_version: self.current_version.clone(),
            latest_version: self.latest_version.clone(),
            change_log: clone_opt(&self.change_log),
            created_at: self.created_at.clone(),
        }
    }
}

/// Orders marketplace search results may be sorted in.
pub enum SortBy {
    Relevance,
    Rating,
    Downloads,
    Name,
    Updated,
}

/// The categories the marketplace starts with.
pub open spec fn default_categories_spec() -> Seq<ExtensionCategoryView> {
    seq![
        ExtensionCategoryView { id: "programming-languages"@, name: "Programming Languages"@, description: Some("Language support and syntax highlighting"@), icon: Some("code"@) },
        ExtensionCategoryView { id: "themes"@, name: "Themes"@, description: Some("Color themes and icon themes"@), icon: Some("palette"@) },
        ExtensionCategoryView { id: "debuggers"@, name: "Debuggers"@, description: Some("Debugging support for various languages"@), icon: Some("bug"@) },
        ExtensionCategoryView { id: "formatters"@, name: "Formatters"@, description: Some("Code formatting tools"@), icon: Some("format"@) },
        ExtensionCategoryView { id: "linters"@, name: "Linters"@, description: Some("Code quality and linting tools"@), icon: Some("check"@) },
        ExtensionCategoryView { id: "snippets"@, name: "Snippets"@, description: Some("Code snippets and templates"@), icon: Some("snippet"@) },
        ExtensionCategoryView { id: "keymaps"@, name: "Keymaps"@, description: Some("Keyboard shortcuts and keybindings"@), icon: Some("keyboard"@) },
        ExtensionCategoryView { id: "other"@, name: "Other"@, description: Some("Other extensions"@), icon: Some("extensions"@) },
    ]
}

fn category(id: &str, name: &str, description: &str, icon: &str) -> (r: ExtensionCategory)
    ensures
        r@ == (ExtensionCategoryView { id: id@, name: name@, description: Some(description@), icon: Some(icon@) }),
{
    ExtensionCategory { id: owned(id), name: owned(name), description: Some(owned(description)), icon: Some(owned(icon)) }
}

/// The categories the marketplace starts with.
pub fn default_categories() -> (r: Vec<ExtensionCategory>)
    ensures
        views(r@) == default_categories_spec(),
{
    let r = vec![
        category("programming-languages", "Programming Languages", "Language support and syntax highlighting", "code"),
        category("themes", "Themes", "Color themes and icon themes", "palette"),
        category("debuggers", "Debuggers", "Debugging support for various languages", "bug"),
        category("formatters", "Formatters", "Code formatting tools", "format"),
        category("linters", "Linters", "Code quality and linting tools", "check"),
        category("snippets", "Snippets", "Code snippets and templates", "snippet"),
        category("keymaps", "Keymaps", "Keyboard shortcuts and keybindings", "keyboard"),
        category("other", "Other", "Other extensions", "extensions"),
    ];
    assert(views(r@) =~= default_categories_spec());
    r
}

/// Position of the first category with id `id`, or the length when there is none.
pub open spec fn category_index(cats: Seq<ExtensionCategoryView>, id: Seq<char>) -> int
    decreases cats.len(),
{
    if cats.len() == 0 {
        0
    } else if cats[0].id == id {
        0
    } else {
        1 + category_index(cats.drop_first(), id)
    }
}

proof fn lemma_category_index(cats: Seq<ExtensionCategoryView>, id: Seq<char>, i: int)
    requires
        0 <= i <= cats.len(),
        forall|j: int| 0 <= j < i ==> (#[trigger] cats[j]).id != id,
        i == cats.len() || cats[i].id == id,
    ensures
        category_index(cats, id) == i,
    decreases cats.len(),
{
    if cats.len() > 0 && cats[0].id != id {
        assert forall|j: int| 0 <= j < i - 1 implies (#[trigger] cats.drop_first()[j]).id != id by {
            assert(cats.drop_first()[j] == cats[j + 1]);
        }
        lemma_category_index(cats.drop_first(), id, i - 1);
    }
}

/// The reviews of `id`, none when it has none.
pub open spec fn reviews_under(reviews: Seq<(Seq<char>, Seq<ExtensionReviewView>)>, id: Seq<char>) -> Seq<
    ExtensionReviewView,
> {
    match lookup(reviews, id) {
        Some(l) => l,
        None => Seq::empty(),
    }
}

/// The number of pages of `page_size` needed for `total` items.
pub open spec fn page_count(total: int, page_size: int) -> int {
    if total % page_size == 0 {
        total / page_size
    } else {
        total / page_size + 1
    }
}

/// The recommendations of `id`, none when it has none.
pub open spec fn recommended_for(recs: Seq<(Seq<char>, Seq<Seq<char>>)>, id: Seq<char>) -> Seq<Seq<char>> {
    match lookup(recs, id) {
        Some(l) => l,
        None => Seq::empty(),
    }
}

/// `acc` followed by each of `candidates` that is neither installed nor already in it.
pub open spec fn add_fresh(acc: Seq<Seq<char>>, candidates: Seq<Seq<char>>, installed: Seq<Seq<char>>) -> Seq<
    Seq<char>,
>
    decreases candidates.len(),
{
    if candidates.len() == 0 {
        acc
    } else {
        let before = add_fresh(acc, candidates.drop_last(), installed);
        let c = candidates.last();
        if installed.contains(c) || before.contains(c) {
            before
        } else {
            before.push(c)
        }
    }
}

/// The recommendations of the installed extensions, in order, each once and
/// none of them installed.
pub open spec fn recommendations_for(
    recs: Seq<(Seq<char>, Seq<Seq<char>>)>,
    ids: Seq<Seq<char>>,
    installed: Seq<Seq<char>>,
) -> Seq<Seq<char>>
    decreases ids.len(),
{
    if ids.len() == 0 {
        Seq::empty()
    } else {
        add_fresh(recommendations_for(recs, ids.drop_last(), installed), recommended_for(recs, ids.last()), installed)
    }
}

/// The ratings agree with the reviews: an extension has a rating exactly
/// when it has reviews, and it is the one drawn from them.
pub open spec fn ratings_match(
    reviews: Seq<(Seq<char>, Seq<ExtensionReviewView>)>,
    ratings: Seq<(Seq<char>, ExtensionRatingView)>,
) -> bool {
    &&& forall|k: Seq<char>| #[trigger] lookup(ratings, k) == match lookup(reviews, k) {
        Some(l) => Some(rating_of(l)),
        None => None::<ExtensionRatingView>,
    }
    &&& forall|i: int| 0 <= i < reviews.len() ==> (#[trigger] reviews[i]).1.len() > 0
}

/// What the marketplace panel shows besides the marketplace's own listing.
pub struct MarketplaceUIRegistry {
    featured_extensions: Vec<String>,
    categories: Vec<ExtensionCategory>,
    reviews: Store<ReviewList>,
    ratings: Store<ExtensionRating>,
    recommendations: Store<IdList>,
    update_notifications: Vec<UpdateNotification>,
}

impl Duplicate for ExtensionRating {
    fn duplicate(&self) -> (r: Self) {
        let mut d: Vec<(u8, usize)> = Vec::new();
        let mut i: usize = 0;
        while i < self.rating_distribution.len()
            invariant
                i <= self.rating_distribution@.len(),
                d@ == self.rating_distribution@.take(i as int),
            decreases self.rating_distribution@.len() - i,
        {
            d.push(self.rating_distribution[i]);
            assert(d@ =~= self.rating_distribution@.take(i + 1));
            i = i + 1;
        }
        assert(d@ =~= self.rating_distribution@);
        ExtensionRating { rating_sum: self.rating_sum, total_ratings: self.total_ratings, rating_distribution: d }
    }
}

impl MarketplaceUIRegistry {
    pub closed spec fn featured(&self) -> Seq<Seq<char>> {
        views(self.featured_extensions@)
    }

    pub closed spec fn categories(&self) -> Seq<ExtensionCategoryView> {
        views(self.categories@)
    }

    /// Each reviewed extension with its reviews, oldest first.
    pub closed spec fn reviews(&self) -> Seq<(Seq<char>, Seq<ExtensionReviewView>)> {
        self.reviews.entries()
    }

    /// Each rated extension with its rating.
    pub closed spec fn ratings(&self) -> Seq<(Seq<char>, ExtensionRatingView)> {
        self.ratings.entries()
    }

    pub closed spec fn recommendations(&self) -> Seq<(Seq<char>, Seq<Seq<char>>)> {
        self.recommendations.entries()
    }

    pub closed spec fn notifications(&self) -> Seq<UpdateNotificationView> {
        views(self.update_notifications@)
    }

    pub open spec fn wf(&self) -> bool {
        &&& distinct_keys(self.reviews())
        &&& distinct_keys(self.ratings())
        &&& distinct_keys(self.recommendations())
        &&& ratings_match(self.reviews(), self.ratings())
    }

    /// An empty panel with the default categories.
    pub fn new() -> (r: Self)
        ensures
            r.wf(),
            r.featured() == Seq::<Seq<char>>::empty(),
            r.categories() == default_categories_spec(),
            r.reviews() == Seq::<(Seq<char>, Seq<ExtensionReviewView>)>::empty(),
            r.recommendations() == Seq::<(Seq<char>, Seq<Seq<char>>)>::empty(),
            r.notifications() == Seq::<UpdateNotificationView>::empty(),
    {
        let r = MarketplaceUIRegistry {
            featured_extensions: Vec::new(),
            categories: default_categories(),
            reviews: Store::new(),
            ratings: Store::new(),
            recommendations: Store::new(),
            update_notifications: Vec::new(),
        };
        assert(r.featured() =~= Seq::<Seq<char>>::empty());
        assert(r.notifications() =~= Seq::<UpdateNotificationView>::empty());
        r
    }

    /// Replaces the featured extensions.
    pub fn set_featured_extensions(&mut self, extension_ids: Vec<String>)
        requires
            old(self).wf(),
        ensures
            final(self).wf(),
            final(self).featured() == views(extension_ids@),
            final(self).categories() == old(self).categories(),
            final(self).reviews() == old(self).reviews(),
            final(self).recommendations() == old(self).recommendations(),
            final(self).notifications() == old(self).notifications(),
    {
        self.featured_extensions = extension_ids;
    }

    pub fn get_featured_extensions(&self) -> (r: Vec<String>)
        ensures
            views(r@) == self.featured(),
    {
        let r = clone_strings(&self.featured_extensions);
        assert(views(r@) =~= self.featured());
        r
    }

    pub fn get_categories(&self) -> (r: Vec<ExtensionCategory>)
        ensures
            views(r@) == self.categories(),
    {
        let r = duplicate_all(&self.categories);
        assert(views(r@) =~= self.categories());
        r
    }

    /// The first category with id `category_id`.
    pub fn get_category(&self, category_id: &str) -> (r: Option<ExtensionCategory>)
        ensures
            match r {
                Some(c) => category_index(self.categories(), category_id@) < self.categories().len()
                    && c@ == self.categories()[category_index(self.categories(), category_id@)],
                None => category_index(self.categories(), category_id@) >= self.categories().len(),
            },
    {
        let mut i: usize = 0;
        while i < self.categories.len()
            invariant
                i <= self.categories@.len(),
                forall|k: int| 0 <= k < i ==> (#[trigger] self.categories()[k]).id != category_id@,
            decreases self.categories@.len() - i,
        {
            if str_eq(self.categories[i].id.as_str(), category_id) {
                proof {
                    lemma_category_index(self.categories(), category_id@, i as int);
                }
                return Some(self.categories[i].duplicate());
            }
            i = i + 1;
        }
        proof {
            lemma_category_index(self.categories(), category_id@, i as int);
        }
        None
    }
}

} // verus!

verus! {

impl MarketplaceUIRegistry {
    /// Adds a review to an extension's and recomputes its rating; always succeeds.
    pub fn add_review(&mut self, extension_id: String, review: ExtensionReview) -> (r: Result<(), String>)
        requires
            old(self).wf(),
        ensures
            final(self).wf(),
            final(self).reviews() == store_insert(
                old(self).reviews(),
                extension_id@,
                reviews_under(old(self).reviews(), extension_id@).push(review@),
            ),
            final(self).featured() == old(self).featured(),
            final(self).categories() == old(self).categories(),
            final(self).recommendations() == old(self).recommendations(),
            final(self).notifications() == old(self).notifications(),
            r is Ok,
    {
        let ghost before = self.reviews();
        let ghost before_ratings = self.ratings();
        let mut list = match self.reviews.get(extension_id.as_str()) {
            Some(l) => l,
            None => {
                let l = ReviewList { items: Vec::new() };
                assert(l@ =~= Seq::<ExtensionReviewView>::empty());
                l
            },
        };
        let ghost rv = review@;
        let ghost lv = list@;
        list.items.push(review);
        assert(list@ =~= lv.push(rv));
        let rating = rating_from_reviews(&list.items);
        self.reviews.insert(extension_id.clone(), list);
        self.ratings.insert(extension_id, rating);
        proof {
            let after = self.reviews();
            let after_ratings = self.ratings();
            let k0 = extension_id@;
            assert forall|k: Seq<char>| #[trigger] lookup(after_ratings, k) == match lookup(after, k) {
                Some(l) => Some(rating_of(l)),
                None => None::<ExtensionRatingView>,
            } by {
                crate::store::lemma_lookup_insert(before, k0, lv.push(rv), k);
                crate::store::lemma_lookup_insert(before_ratings, k0, rating_of(lv.push(rv)), k);
                assert(lookup(before_ratings, k) == match lookup(before, k) {
                    Some(l) => Some(rating_of(l)),
                    None => None::<ExtensionRatingView>,
                });
            }
            crate::store::lemma_key_index_bounds(before, k0);
            assert forall|i: int| 0 <= i < after.len() implies (#[trigger] after[i]).1.len() > 0 by {
                if i < before.len() && i != crate::store::key_index(before, k0) {
                    assert(after[i] == before[i]);
                }
            }
        }
        Ok(())
    }

    /// The reviews of an extension, oldest first; none when it has none.
    pub fn get_reviews(&self, extension_id: &str) -> (r: Vec<ExtensionReview>)
        ensures
            views(r@) == reviews_under(self.reviews(), extension_id@),
    {
        match self.reviews.get(extension_id) {
            Some(l) => l.items,
            None => {
                let r: Vec<ExtensionReview> = Vec::new();
                assert(views(r@) =~= Seq::<ExtensionReviewView>::empty());
                r
            },
        }
    }

    /// Page `page` (from zero) of an extension's reviews, `page_size` to a page.
    pub fn get_reviews_paginated(&self, extension_id: &str, page: usize, page_size: usize) -> (r: ReviewsPage)
        requires
            page_size > 0,
            (page + 1) * page_size <= usize::MAX,
        ensures
            ({
                let all = reviews_under(self.reviews(), extension_id@);
                let start = page * page_size;
                let end = if start + page_size < all.len() { start + page_size } else { all.len() as int };
                &&& views(r.reviews@) == (if start < all.len() { all.subrange(start, end) } else { Seq::empty() })
                &&& r.page == page
                &&& r.page_size == page_size
                &&& r.total == all.len()
                &&& r.total_pages == page_count(all.len() as int, page_size as int)
            }),
    {
        let all_reviews = self.get_reviews(extension_id);
        let ghost all = views(all_reviews@);
        let total = all_reviews.len();
        assert(page * page_size + page_size <= usize::MAX) by (nonlinear_arith)
            requires
                (page + 1) * page_size <= usize::MAX,
        ;
        let start = page * page_size;
        let end = if start + page_size < total { start + page_size } else { total };
        let mut reviews: Vec<ExtensionReview> = Vec::new();
        if start < total {
            let mut i: usize = start;
            while i < end
                invariant
                    start <= i <= end <= all_reviews@.len(),
                    all == views(all_reviews@),
                    views(reviews@) == all.subrange(start as int, i as int),
                decreases end - i,
            {
                let ghost before = views(reviews@);
                let c = all_reviews[i].duplicate();
                reviews.push(c);
                assert(views(reviews@) =~= before.push(c@));
                assert(views(reviews@) =~= all.subrange(start as int, i + 1));
                i = i + 1;
            }
        } else {
            assert(views(reviews@) =~= Seq::<ExtensionReviewView>::empty());
        }
        let total_pages = if total % page_size == 0 {
            total / page_size
        } else {
            assert(total / page_size < usize::MAX) by (nonlinear_arith)
                requires
                    page_size > 0,
                    total % page_size != 0,
                    total <= usize::MAX,
            {
                assert(page_size != 1);
                assert(total / page_size <= total / 2) by {
                    vstd::arithmetic::div_mod::lemma_div_is_ordered_by_denominator(total as int, 2, page_size as int);
                }
            }
            total / page_size + 1
        };
        ReviewsPage { reviews, page, page_size, total, total_pages }
    }

    /// The rating drawn from an extension's reviews, if it has any.
    pub fn get_rating(&self, extension_id: &str) -> (r: Option<ExtensionRating>)
        requires
            self.wf(),
        ensures
            match r {
                Some(rating) => lookup(self.reviews(), extension_id@) is Some && rating@ == rating_of(
                    reviews_under(self.reviews(), extension_id@),
                ),
                None => lookup(self.reviews(), extension_id@) is None,
            },
    {
        assert(lookup(self.ratings(), extension_id@) == match lookup(self.reviews(), extension_id@) {
            Some(l) => Some(rating_of(l)),
            None => None::<ExtensionRatingView>,
        });
        self.ratings.get(extension_id)
    }

    /// Sets the extensions recommended alongside `extension_id`.
    pub fn add_recommendation(&mut self, extension_id: String, recommended_ids: Vec<String>)
        requires
            old(self).wf(),
        ensures
            final(self).wf(),
            final(self).recommendations() == store_insert(
                old(self).recommendations(),
                extension_id@,
                views(recommended_ids@),
            ),
            final(self).featured() == old(self).featured(),
            final(self).categories() == old(self).categories(),
            final(self).reviews() == old(self).reviews(),
            final(self).notifications() == old(self).notifications(),
    {
        self.recommendations.insert(extension_id, IdList { ids: recommended_ids });
    }

    /// The extensions recommended alongside `extension_id`; none when it has none.
    pub fn get_recommendations(&self, extension_id: &str) -> (r: Vec<String>)
        ensures
            views(r@) == recommended_for(self.recommendations(), extension_id@),
    {
        match self.recommendations.get(extension_id) {
            Some(l) => l.ids,
            None => {
                let r: Vec<String> = Vec::new();
                assert(views(r@) =~= Seq::<Seq<char>>::empty());
                r
            },
        }
    }
}

fn seq_has(v: &Vec<String>, s: &String) -> (r: bool)
    ensures
        r == views(v@).contains(s@),
{
    let mut i: usize = 0;
    while i < v.len()
        invariant
            i <= v@.len(),
            forall|k: int| 0 <= k < i ==> (#[trigger] v@[k])@ != s@,
        decreases v@.len() - i,
    {
        if str_eq(v[i].as_str(), s.as_str()) {
            assert(views(v@)[i as int] == s@);
            return true;
        }
        i = i + 1;
    }
    assert forall|k: int| 0 <= k < views(v@).len() implies views(v@)[k] != s@ by {
        assert(views(v@)[k] == v@[k]@);
    }
    false
}

impl MarketplaceUIRegistry {
    /// What the installed extensions recommend, in order, each once, leaving
    /// out what is installed.
    pub fn generate_recommendations(&self, installed_extensions: Vec<String>) -> (r: Vec<String>)
        ensures
            views(r@) == recommendations_for(
                self.recommendations(),
                views(installed_extensions@),
                views(installed_extensions@),
            ),
    {
        let ghost inst = views(installed_extensions@);
        let mut recommended: Vec<String> = Vec::new();
        let mut i: usize = 0;
        assert(inst.take(0) =~= Seq::<Seq<char>>::empty());
        assert(views(recommended@) =~= Seq::<Seq<char>>::empty());
        while i < installed_extensions.len()
            invariant
                i <= installed_extensions@.len(),
                inst == views(installed_extensions@),
                views(recommended@) == recommendations_for(self.recommendations(), inst.take(i as int), inst),
            decreases installed_extensions@.len() - i,
        {
            assert(inst.take(i + 1).drop_last() =~= inst.take(i as int));
            assert(inst.take(i + 1).last() == installed_extensions@[i as int]@);
            let recs = self.get_recommendations(installed_extensions[i].as_str());
            let ghost rv = views(recs@);
            let ghost acc = views(recommended@);
            let mut j: usize = 0;
            assert(rv.take(0) =~= Seq::<Seq<char>>::empty());
            while j < recs.len()
                invariant
                    j <= recs@.len(),
                    rv == views(recs@),
                    inst == views(installed_extensions@),
                    views(recommended@) == add_fresh(acc, rv.take(j as int), inst),
                decreases recs@.len() - j,
            {
                assert(rv.take(j + 1).drop_last() =~= rv.take(j as int));
                assert(rv.take(j + 1).last() == recs@[j as int]@);
                let rec = &recs[j];
                if !seq_has(&installed_extensions, rec) && !seq_has(&recommended, rec) {
                    let ghost before = views(recommended@);
                    recommended.push(rec.clone());
                    assert(views(recommended@) =~= before.push(rec@));
                }
                j = j + 1;
            }
            assert(rv.take(recs@.len() as int) =~= rv);
            i = i + 1;
        }
        assert(inst.take(installed_extensions@.len() as int) =~= inst);
        recommended
    }
}

} // verus!

verus! {

/// The notifications that are not for `id`, in order.
pub open spec fn notifications_without(s: Seq<UpdateNotificationView>, id: Seq<char>) -> Seq<UpdateNotificationView> {
    s.filter(|n: UpdateNotificationView| n.extension_id != id)
}

/// Copies of the notifications that are not for `id`.
fn keep_other_notifications(v: &Vec<UpdateNotification>, id: &str) -> (r: Vec<UpdateNotification>)
    ensures
        views(r@) == notifications_without(views(v@), id@),
{
    let ghost s = views(v@);
    let ghost pred = |n: UpdateNotificationView| n.extension_id != id@;
    let mut out: Vec<UpdateNotification> = Vec::new();
    let mut i: usize = 0;
    assert(s.take(0).filter(pred) =~= Seq::<UpdateNotificationView>::empty()) by {
        reveal(Seq::filter);
    }
    while i < v.len()
        invariant
            i <= v@.len(),
            s == views(v@),
            pred == (|n: UpdateNotificationView| n.extension_id != id@),
            views(out@) == s.take(i as int).filter(pred),
        decreases v@.len() - i,
    {
        proof {
            assert(s.take(i + 1) =~= s.take(i as int).push(s[i as int]));
            s.take(i as int).lemma_filter_push(s[i as int], pred);
        }
        if !str_eq(v[i].extension_id.as_str(), id) {
            let ghost before = views(out@);
            let c = v[i].duplicate();
            out.push(c);
            assert(views(out@) =~= before.push(c@));
        }
        i = i + 1;
    }
    assert(s.take(v@.len() as int) =~= s);
    out
}

impl MarketplaceUIRegistry {
    /// Records an available update, replacing any earlier notice for the
    /// same extension; the new notice comes last.
    pub fn add_update_notification(&mut self, notification: UpdateNotification)
        requires
            old(self).wf(),
        ensures
            final(self).wf(),
            final(self).notifications() == notifications_without(
                old(self).notifications(),
                notification@.extension_id,
            ).push(notification@),
            final(self).featured() == old(self).featured(),
            final(self).categories() == old(self).categories(),
            final(self).reviews() == old(self).reviews(),
            final(self).recommendations() == old(self).recommendations(),
    {
        let mut kept = keep_other_notifications(&self.update_notifications, notification.extension_id.as_str());
        let ghost before = views(kept@);
        let ghost nv = notification@;
        kept.push(notification);
        assert(views(kept@) =~= before.push(nv));
        self.update_notifications = kept;
    }

    pub fn get_update_notifications(&self) -> (r: Vec<UpdateNotification>)
        ensures
            views(r@) == self.notifications(),
    {
        let r = duplicate_all(&self.update_notifications);
        assert(views(r@) =~= self.notifications());
        r
    }

    /// Drops the notice for `extension_id`, if any.
    pub fn remove_update_notification(&mut self, extension_id: &str)
        requires
            old(self).wf(),
        ensures
            final(self).wf(),
            final(self).notifications() == notifications_without(old(self).notifications(), extension_id@),
            final(self).featured() == old(self).featured(),
            final(self).categories() == old(self).categories(),
            final(self).reviews() == old(self).reviews(),
            final(self).recommendations() == old(self).recommendations(),
    {
        self.update_notifications = keep_other_notifications(&self.update_notifications, extension_id);
    }

    pub fn clear_update_notifications(&mut self)
        requires
            old(self).wf(),
        ensures
            final(self).wf(),
            final(self).notifications() == Seq::<UpdateNotificationView>::empty(),
            final(self).featured() == old(self).featured(),
            final(self).categories() == old(self).categories(),
            final(self).reviews() == old(self).reviews(),
            final(self).recommendations() == old(self).recommendations(),
    {
        self.update_notifications = Vec::new();
        assert(self.notifications() =~= Seq::<UpdateNotificationView>::empty());
    }

    /// Forgets the featured list, reviews, ratings, recommendations and
    /// notices; the categories stay.
    pub fn clear_all_data(&mut self)
        requires
            old(self).wf(),
        ensures
            final(self).wf(),
            final(self).featured() == Seq::<Seq<char>>::empty(),
            final(self).categories() == old(self).categories(),
            final(self).reviews() == Seq::<(Seq<char>, Seq<ExtensionReviewView>)>::empty(),
            final(self).recommendations() == Seq::<(Seq<char>, Seq<Seq<char>>)>::empty(),
            final(self).notifications() == Seq::<UpdateNotificationView>::empty(),
    {
        self.featured_extensions = Vec::new();
        self.reviews = Store::new();
        self.ratings = Store::new();
        self.recommendations = Store::new();
        self.update_notifications = Vec::new();
        assert(self.featured() =~= Seq::<Seq<char>>::empty());
        assert(self.notifications() =~= Seq::<UpdateNotificationView>::empty());
    }
}

} // verus!

verus! {

proof fn lemma_add_fresh(acc: Seq<Seq<char>>, candidates: Seq<Seq<char>>, installed: Seq<Seq<char>>)
    requires
        acc.no_duplicates(),
        forall|x: Seq<char>| acc.contains(x) ==> !installed.contains(x),
    ensures
        add_fresh(acc, candidates, installed).no_duplicates(),
        forall|x: Seq<char>| #[trigger] add_fresh(acc, candidates, installed).contains(x) ==> !installed.contains(x),
    decreases candidates.len(),
{
    broadcast use vstd::seq_lib::group_seq_properties;
    if candidates.len() > 0 {
        lemma_add_fresh(acc, candidates.drop_last(), installed);
        let before = add_fresh(acc, candidates.drop_last(), installed);
        let c = candidates.last();
        if !(installed.contains(c) || before.contains(c)) {
            assert forall|a: int, b: int| 0 <= a < b < before.push(c).len() implies before.push(c)[a] != before.push(c)[b] by {
                if b == before.len() {
                    assert(before.contains(before[a]));
                }
            }
        }
    }
}

/// Generated recommendations hold each extension at most once, and none
/// that is installed.
pub proof fn lemma_recommendations_fresh(
    recs: Seq<(Seq<char>, Seq<Seq<char>>)>,
    ids: Seq<Seq<char>>,
    installed: Seq<Seq<char>>,
)
    ensures
        recommendations_for(recs, ids, installed).no_duplicates(),
        forall|x: Seq<char>| #[trigger] recommendations_for(recs, ids, installed).contains(x) ==> !installed.contains(x),
    decreases ids.len(),
{
    if ids.len() > 0 {
        lemma_recommendations_fresh(recs, ids.drop_last(), installed);
        lemma_add_fresh(recommendations_for(recs, ids.drop_last(), installed), recommended_for(recs, ids.last()), installed);
    }
}

/// Whether a rating is `r`.
pub open spec fn is_rating(r: u8) -> spec_fn(u8) -> bool {
    |x: u8| x == r
}

/// How many times `r` occurs in `rs`.
pub open spec fn occurrences(rs: Seq<u8>, r: u8) -> nat {
    rs.filter(is_rating(r)).len()
}

/// Each rating in a distribution occurs once, with the number of reviews
/// that gave it; and every rating given has its entry.
pub proof fn lemma_distribution_counts(rs: Seq<u8>)
    ensures
        forall|a: int, b: int|
            0 <= a < b < distribution(rs).len() ==> (#[trigger] distribution(rs)[a]).0 != (#[trigger] distribution(rs)[b]).0,
        forall|j: int|
            0 <= j < distribution(rs).len() ==> (#[trigger] distribution(rs)[j]).1 == occurrences(rs, distribution(rs)[j].0),
        forall|k: int| 0 <= k < rs.len() ==> dist_index(distribution(rs), #[trigger] rs[k]) < distribution(rs).len(),
    decreases rs.len(),
{
    if rs.len() == 0 {
        return;
    }
    let prev = rs.drop_last();
    let r = rs.last();
    lemma_distribution_counts(prev);
    let d = distribution(prev);
    lemma_dist_index_bounds(d, r);
    let i = dist_index(d, r);
    let nd = distribution(rs);
    assert(rs =~= prev.push(r));
    assert forall|x: u8| #[trigger] occurrences(rs, x) == occurrences(prev, x) + (if x == r { 1nat } else { 0nat }) by {
        prev.lemma_filter_push(r, is_rating(x));
    }
    assert forall|j: int| 0 <= j < nd.len() implies (#[trigger] nd[j]).1 == occurrences(rs, nd[j].0) by {
        if j < d.len() && j != i {
            assert(nd[j] == d[j]);
            assert(occurrences(rs, d[j].0) == occurrences(prev, d[j].0) + (if d[j].0 == r { 1nat } else { 0nat }));
        } else {
            assert(occurrences(rs, r) == occurrences(prev, r) + 1);
            if i == d.len() {
                assert(occurrences(prev, r) == 0) by {
                    if occurrences(prev, r) > 0 {
                        let f = prev.filter(is_rating(r));
                        prev.lemma_filter_pred(is_rating(r), 0);
                        assert(f.contains(f[0]));
                        prev.lemma_filter_contains_rev(is_rating(r), f[0]);
                        let k = choose|k: int| 0 <= k < prev.len() && prev[k] == f[0];
                        assert(dist_index(d, prev[k]) < d.len());
                    }
                }
            }
        }
    }
    assert forall|a: int, b: int| 0 <= a < b < nd.len() implies (#[trigger] nd[a]).0 != (#[trigger] nd[b]).0 by {
        if b == d.len() {
            assert(nd[a].0 == d[a].0);
        } else if a != i && b != i {
            assert(nd[a] == d[a] && nd[b] == d[b]);
        } else if a == i {
            assert(nd[b] == d[b]);
            assert(d[a].0 == r);
        } else {
            assert(nd[a] == d[a]);
            assert(d[b].0 == r);
        }
    }
    assert forall|k: int| 0 <= k < rs.len() implies dist_index(nd, #[trigger] rs[k]) < nd.len() by {
        let x = rs[k];
        if k < prev.len() {
            assert(prev[k] == x);
        }
        lemma_dist_index_bounds(d, x);
        let m = dist_index(d, x);
        if m < d.len() {
            assert forall|j: int| 0 <= j < m implies (#[trigger] nd[j]).0 != x by {
                if j == i {
                    assert(d[i].0 == r);
                } else {
                    assert(nd[j] == d[j]);
                }
            }
            assert(nd[m].0 == x);
            lemma_dist_index(nd, x, m);
        } else {
            assert(x == r);
            assert forall|j: int| 0 <= j < d.len() implies (#[trigger] nd[j]).0 != x by {
                assert(nd[j] == d[j]);
            }
            lemma_dist_index(nd, x, d.len() as int);
        }
    }
}

proof fn lemma_dist_index_bounds(d: Seq<(u8, nat)>, r: u8)
    ensures
        0 <= dist_index(d, r) <= d.len(),
        dist_index(d, r) < d.len() ==> d[dist_index(d, r)].0 == r,
        forall|j: int| 0 <= j < dist_index(d, r) ==> (#[trigger] d[j]).0 != r,
    decreases d.len(),
{
    if d.len() > 0 && d[0].0 != r {
        lemma_dist_index_bounds(d.drop_first(), r);
        assert forall|j: int| 0 <= j < dist_index(d, r) implies (#[trigger] d[j]).0 != r by {
            if j > 0 {
                assert(d[j] == d.drop_first()[j - 1]);
            }
        }
    }
}

/// The notices hold at most one per extension.
pub open spec fn one_notice_each(s: Seq<UpdateNotificationView>) -> bool {
    forall|a: int, b: int| 0 <= a < b < s.len() ==> (#[trigger] s[a]).extension_id != (#[trigger] s[b]).extension_id
}

/// Adding a notice keeps at most one notice per extension.
pub proof fn lemma_one_notice_each(s: Seq<UpdateNotificationView>, n: UpdateNotificationView)
    requires
        one_notice_each(s),
    ensures
        one_notice_each(notifications_without(s, n.extension_id).push(n)),
{
    let pred = |x: UpdateNotificationView| x.extension_id != n.extension_id;
    let f = s.filter(pred);
    broadcast use vstd::seq_lib::group_filter_ensures;
    assert forall|a: int, b: int| 0 <= a < b < f.push(n).len() implies (#[trigger] f.push(n)[a]).extension_id
        != (#[trigger] f.push(n)[b]).extension_id by {
        if b == f.len() {
            assert(f.contains(f[a]));
            assert(pred(f[a]));
        } else {
            lemma_filter_one_each(s, pred);
        }
    }
}

proof fn lemma_filter_one_each(s: Seq<UpdateNotificationView>, pred: spec_fn(UpdateNotificationView) -> bool)
    requires
        one_notice_each(s),
    ensures
        one_notice_each(s.filter(pred)),
    decreases s.len(),
{
    broadcast use vstd::seq_lib::group_filter_ensures;
    if s.len() > 0 {
        let p = s.drop_last();
        assert(one_notice_each(p)) by {
            assert forall|a: int, b: int| 0 <= a < b < p.len() implies (#[trigger] p[a]).extension_id != (#[trigger] p[b]).extension_id by {
                assert(p[a] == s[a] && p[b] == s[b]);
            }
        }
        lemma_filter_one_each(p, pred);
        assert(s =~= p.push(s.last()));
        p.lemma_filter_push(s.last(), pred);
        let f = p.filter(pred);
        if pred(s.last()) {
            assert forall|a: int, b: int| 0 <= a < b < f.push(s.last()).len() implies (#[trigger] f.push(s.last())[a]).extension_id
                != (#[trigger] f.push(s.last())[b]).extension_id by {
                if b == f.len() {
                    assert(f.contains(f[a]));
                    p.lemma_filter_contains_rev(pred, f[a]);
                    let k = choose|k: int| 0 <= k < p.len() && p[k] == f[a];
                    assert(s[k] == p[k]);
                    assert(s[k].extension_id != s[s.len() - 1].extension_id);
                }
            }
        }
    }
}

} // verus!
