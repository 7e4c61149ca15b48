//! Lists of creators, and of what is known of them.

use vstd::prelude::*;
use crate::db::filters;
use crate::db::filters::{AppMode, DbError, EmailFilter};
use crate::db::items::{
    AppShown, AppSummary, CreatorListItem, CreatorShown, LanguageReviewCreator, ReviewShown,
};
use crate::db::joins;
use crate::db::listing;
use crate::db::record;
use crate::db::record::{FollowOf, VideoOf};
use crate::db::rows;
use crate::db::rows::{
    AppRow, AppView, CreatorRow, CreatorView, Database, DatabaseView, FollowRow, FollowView,
    VideoRow, VideoView,
};
use crate::db::table;
use crate::db::table::{EveryRow, RowDisplay, RowKey, RowTest};
use crate::floating::Real;
use crate::handles;
use crate::lists;
use crate::models;
use crate::order;
use crate::ranking;
use crate::ranking::{SortValue, SortView};
use crate::search;
use crate::text;

verus! {

/// The smallest number of creators that a list can be asked for.
pub const LEAST_CREATORS: usize = 1;

/// The greatest number of creators that a list shows.
pub const MOST_CREATORS: usize = 500;

// ---------------------------------------------------------------------------
// Which creators
// ---------------------------------------------------------------------------
/// Which creators a list is to show.
pub struct CreatorListFilters {
    pub app_mode: Option<String>,
    pub app_names: Vec<String>,
    pub language_codes: Vec<String>,
    pub country_codes: Vec<String>,
    pub contact_statuses: Vec<String>,
    pub email_filter: Option<String>,
    pub min_followers: Option<i64>,
    pub max_followers: Option<i64>,
    pub min_following: Option<i64>,
    pub max_following: Option<i64>,
    pub min_median_views: Option<Real>,
    pub max_median_views: Option<Real>,
    pub min_avg_views: Option<Real>,
    pub max_avg_views: Option<Real>,
    pub limit: usize,
    pub offset: usize,
}

/// The mathematical reading of `CreatorListFilters`, in normal form.
pub struct ListView {
    pub app_mode: Option<AppMode>,
    pub apps: Seq<Seq<char>>,
    pub languages: Seq<Seq<char>>,
    pub countries: Seq<Seq<char>>,
    pub contacts: Seq<Seq<char>>,
    pub email: Option<EmailFilter>,
    pub min_followers: Option<i64>,
    pub max_followers: Option<i64>,
    pub min_following: Option<i64>,
    pub max_following: Option<i64>,
    pub min_median_views: Option<Real>,
    pub max_median_views: Option<Real>,
    pub min_avg_views: Option<Real>,
    pub max_avg_views: Option<Real>,
}

impl View for CreatorListFilters {
    type V = ListView;

    open spec fn view(&self) -> ListView {
        ListView {
            app_mode: filters::app_mode(models::opt_text(self.app_mode)),
            apps: filters::filter_values(search::texts(self.app_names@)),
            languages: filters::upper_values(search::texts(self.language_codes@)),
            countries: filters::upper_values(search::texts(self.country_codes@)),
            contacts: filters::filter_values(search::texts(self.contact_statuses@)),
            email: filters::email_filter(models::opt_text(self.email_filter)),
            min_followers: self.min_followers,
            max_followers: self.max_followers,
            min_following: self.min_following,
            max_following: self.max_following,
            min_median_views: self.min_median_views,
            max_median_views: self.max_median_views,
            min_avg_views: self.min_avg_views,
            max_avg_views: self.max_avg_views,
        }
    }
}

impl Default for CreatorListFilters {
    /// Every creator, the first hundred of them.
    fn default() -> (r: CreatorListFilters)
        ensures
            r.app_mode is None,
            r.app_names@.len() == 0,
            r.language_codes@.len() == 0,
            r.country_codes@.len() == 0,
            r.contact_statuses@.len() == 0,
            r.email_filter is None,
            r.min_followers is None,
            r.max_followers is None,
            r.min_following is None,
            r.max_following is None,
            r.min_median_views is None,
            r.max_median_views is None,
            r.min_avg_views is None,
            r.max_avg_views is None,
            r.limit == 100,
            r.offset == 0,
    {
        CreatorListFilters {
            app_mode: None,
            app_names: Vec::new(),
            language_codes: Vec::new(),
            country_codes: Vec::new(),
            contact_statuses: Vec::new(),
            email_filter: None,
            min_followers: None,
            max_followers: None,
            min_following: None,
            max_following: None,
            min_median_views: None,
            max_median_views: None,
            min_avg_views: None,
            max_avg_views: None,
            limit: 100,
            offset: 0,
        }
    }
}

/// The text is one of those asked for, in any case; nothing asked for leaves
/// every text in, and a text that is missing is never one of them.
pub open spec fn is_one_of(asked: Seq<Seq<char>>, t: Option<Seq<char>>) -> bool {
    asked.len() == 0 || match t {
        Some(t) => filters::has_ignoring_case(asked, t),
        None => false,
    }
}

fn one_of(asked: &Vec<String>, t: Option<&str>) -> (r: bool)
    ensures
        r == is_one_of(search::texts(asked@), filters::opt_str(t)),
{
    if asked.len() == 0 {
        return true;
    }
    match t {
        Some(t) => filters::contains_ignoring_case(asked, t),
        None => false,
    }
}

/// The count is within the bounds that are given; a count that is missing is
/// within none.
pub open spec fn count_within(min: Option<i64>, max: Option<i64>, n: Option<i64>) -> bool {
    &&& min matches Some(m) ==> n matches Some(c) && m <= c
    &&& max matches Some(m) ==> n matches Some(c) && c <= m
}

fn within_counts(min: Option<i64>, max: Option<i64>, n: Option<i64>) -> (r: bool)
    ensures
        r == count_within(min, max, n),
{
    let above: bool = match (min, n) {
        (None, _) => true,
        (Some(m), Some(c)) => m <= c,
        (Some(_), None) => false,
    };
    let below: bool = match (max, n) {
        (None, _) => true,
        (Some(m), Some(c)) => c <= m,
        (Some(_), None) => false,
    };
    above && below
}

/// The number is within the bounds that are given; a bound that is not a number
/// is none.
pub open spec fn number_within(min: Option<Real>, max: Option<Real>, x: Real) -> bool {
    &&& min matches Some(m) ==> m.is_nan() || m.le(x)
    &&& max matches Some(m) ==> m.is_nan() || x.le(m)
}

fn within_numbers(min: Option<Real>, max: Option<Real>, x: Real) -> (r: bool)
    ensures
        r == number_within(min, max, x),
{
    let above: bool = match min {
        None => true,
        Some(m) => m.nan() || m.at_most(x),
    };
    let below: bool = match max {
        None => true,
        Some(m) => m.nan() || x.at_most(m),
    };
    above && below
}

/// The creator is one of those asked for.
pub open spec fn listed(f: ListView, c: CreatorView) -> bool {
    &&& match f.app_mode {
        Some(AppMode::WithApp) => joins::unspaced(c.promoted_app_name) is Some,
        Some(AppMode::NoApp) => joins::unspaced(c.promoted_app_name) is None,
        None => true,
    }
    &&& is_one_of(f.apps, c.promoted_app_name)
    &&& is_one_of(f.languages, Some(c.language_code))
    &&& is_one_of(f.countries, c.country_code)
    &&& is_one_of(f.contacts, Some(c.contact_status.text()))
    &&& match f.email {
        Some(EmailFilter::Has) => joins::unspaced(c.email) is Some,
        Some(EmailFilter::Lacks) => joins::unspaced(c.email) is None,
        None => true,
    }
    &&& count_within(f.min_followers, f.max_followers, c.follower_count)
    &&& count_within(f.min_following, f.max_following, c.following_count)
    &&& number_within(f.min_median_views, f.max_median_views, c.median_views)
    &&& number_within(f.min_avg_views, f.max_avg_views, c.avg_views)
}

pub open spec fn listed_by(f: ListView) -> spec_fn(CreatorView) -> bool {
    |c: CreatorView| listed(f, c)
}

struct Listed<'a> {
    filters: &'a CreatorListFilters,
    app_mode: Option<AppMode>,
    apps: Vec<String>,
    languages: Vec<String>,
    countries: Vec<String>,
    contacts: Vec<String>,
    email: Option<EmailFilter>,
}

impl<'a> Listed<'a> {
    spec fn reading(&self) -> ListView {
        ListView {
            app_mode: self.app_mode,
            apps: search::texts(self.apps@),
            languages: search::texts(self.languages@),
            countries: search::texts(self.countries@),
            contacts: search::texts(self.contacts@),
            email: self.email,
            ..self.filters@
        }
    }

    fn new(f: &'a CreatorListFilters) -> (r: Listed<'a>)
        ensures
            r.reading() == f@,
    {
        Listed {
            filters: f,
            app_mode: filters::normalized_app_mode(str_of(&f.app_mode)),
            apps: filters::normalized_values(&f.app_names),
            languages: filters::normalized_upper_values(&f.language_codes),
            countries: filters::normalized_upper_values(&f.country_codes),
            contacts: filters::normalized_values(&f.contact_statuses),
            email: filters::normalized_email_filter(str_of(&f.email_filter)),
        }
    }
}

fn str_of(o: &Option<String>) -> (r: Option<&str>)
    ensures
        filters::opt_str(r) == models::opt_text(*o),
{
    match o {
        Some(s) => Some(s.as_str()),
        None => None,
    }
}

impl<'a> RowTest<CreatorRow> for Listed<'a> {
    closed spec fn wanted(&self) -> spec_fn(CreatorView) -> bool {
        listed_by(self.reading())
    }

    fn test(&self, row: &CreatorRow) -> (r: bool) {
        let has_app: bool = joins::unspaced_of(&row.promoted_app_name).is_some();
        let app_fits: bool = match self.app_mode {
            Some(AppMode::WithApp) => has_app,
            Some(AppMode::NoApp) => !has_app,
            None => true,
        };
        let has_email: bool = joins::unspaced_of(&row.email).is_some();
        let email_fits: bool = match self.email {
            Some(EmailFilter::Has) => has_email,
            Some(EmailFilter::Lacks) => !has_email,
            None => true,
        };
        let f: &CreatorListFilters = self.filters;
        app_fits && email_fits && one_of(&self.apps, str_of(&row.promoted_app_name)) && one_of(
            &self.languages,
            Some(row.language_code.as_str()),
        ) && one_of(&self.countries, str_of(&row.country_code)) && one_of(
            &self.contacts,
            Some(row.contact_status.name()),
        ) && within_counts(f.min_followers, f.max_followers, row.follower_count) && within_counts(
            f.min_following,
            f.max_following,
            row.following_count,
        ) && within_numbers(f.min_median_views, f.max_median_views, row.median_views)
            && within_numbers(f.min_avg_views, f.max_avg_views, row.avg_views)
    }
}

// ---------------------------------------------------------------------------
// In which order
// ---------------------------------------------------------------------------
/// What creators can be ordered by.
#[derive(Debug, Clone, Copy, PartialEq, Eq, Structural)]
pub enum SortColumn {
    AvgViews,
    MedianViews,
    Followers,
    Following,
    ScrapedAt,
    ContactPriority,
}

/// What the word asks to order by: the median of the views, unless it names
/// something else.
pub open spec fn column_of(word: Seq<char>) -> SortColumn {
    if word == "avg_views"@ {
        SortColumn::AvgViews
    } else if word == "followers"@ || word == "follower_count"@ {
        SortColumn::Followers
    } else if word == "following"@ || word == "following_count"@ {
        SortColumn::Following
    } else if word == "scraped_at"@ {
        SortColumn::ScrapedAt
    } else if word == "contact_priority"@ {
        SortColumn::ContactPriority
    } else {
        SortColumn::MedianViews
    }
}

fn sort_column(word: &str) -> (r: SortColumn)
    ensures
        r == column_of(word@),
{
    if text::same(word, "avg_views") {
        SortColumn::AvgViews
    } else if text::same(word, "followers") || text::same(word, "follower_count") {
        SortColumn::Followers
    } else if text::same(word, "following") || text::same(word, "following_count") {
        SortColumn::Following
    } else if text::same(word, "scraped_at") {
        SortColumn::ScrapedAt
    } else if text::same(word, "contact_priority") {
        SortColumn::ContactPriority
    } else {
        SortColumn::MedianViews
    }
}

/// The greater creators come first, unless the word asks otherwise.
pub open spec fn is_descending(word: Seq<char>) -> bool {
    !text::same_ignoring_case(word, "asc"@)
}

pub open spec fn count_value(n: Option<i64>) -> SortView {
    match n {
        Some(n) => SortView::Number(n as int),
        None => SortView::Missing,
    }
}

pub open spec fn text_value(t: Option<Seq<char>>) -> SortView {
    match t {
        Some(t) => SortView::Text(t),
        None => SortView::Missing,
    }
}

fn sort_count(n: Option<i64>) -> (r: SortValue)
    ensures
        r@ == count_value(n),
{
    match n {
        Some(n) => SortValue::Number(n as i128),
        None => SortValue::Missing,
    }
}

fn sort_text(t: &Option<String>) -> (r: SortValue)
    ensures
        r@ == text_value(models::opt_text(*t)),
{
    match t {
        Some(t) => SortValue::Text(t.clone()),
        None => SortValue::Missing,
    }
}

/// The value that a creator is ordered by.
pub open spec fn sorted_value(column: SortColumn, c: CreatorView) -> SortView {
    match column {
        SortColumn::AvgViews => SortView::Number(c.avg_views.key()),
        SortColumn::MedianViews => SortView::Number(c.median_views.key()),
        SortColumn::Followers => count_value(c.follower_count),
        SortColumn::Following => count_value(c.following_count),
        SortColumn::ScrapedAt => SortView::Text(c.scraped_at),
        SortColumn::ContactPriority => text_value(c.contact_priority_at),
    }
}

/// Creators are ordered by what is asked for, and where that is equal by
/// handle.
pub open spec fn creator_order(column: SortColumn) -> spec_fn(CreatorView) -> Seq<SortView> {
    |c: CreatorView|
        seq![sorted_value(column, c), SortView::Text(text::lower(c.handle))]
}

struct CreatorOrder {
    column: SortColumn,
    descending: bool,
}

impl RowKey<CreatorRow> for CreatorOrder {
    closed spec fn key(&self) -> spec_fn(CreatorView) -> Seq<SortView> {
        creator_order(self.column)
    }

    closed spec fn directions(&self) -> Seq<bool> {
        seq![self.descending, false]
    }

    fn key_of(&self, row: &CreatorRow) -> (r: Vec<SortValue>) {
        let value: SortValue = match self.column {
            SortColumn::AvgViews => SortValue::Number(row.avg_views.sort_key()),
            SortColumn::MedianViews => SortValue::Number(row.median_views.sort_key()),
            SortColumn::Followers => sort_count(row.follower_count),
            SortColumn::Following => sort_count(row.following_count),
            SortColumn::ScrapedAt => SortValue::Text(row.scraped_at.clone()),
            SortColumn::ContactPriority => sort_text(&row.contact_priority_at),
        };
        let r: Vec<SortValue> = vec![
            value,
            SortValue::Text(text::to_lower(row.handle.as_str())),
        ];
        assert(ranking::key_view(r@) =~= creator_order(self.column)(row@));
        r
    }

    fn descending(&self) -> (r: Vec<bool>) {
        let r: Vec<bool> = vec![self.descending, false];
        assert(r@ =~= seq![self.descending, false]);
        r
    }
}

// ---------------------------------------------------------------------------
// What is shown
// ---------------------------------------------------------------------------
/// A creator, as lists show it.
pub open spec fn creator_shown(
    videos: Seq<VideoView>,
    follows: Seq<FollowView>,
) -> spec_fn(CreatorView) -> CreatorShown {
    |c: CreatorView|
        CreatorShown {
            handle: c.handle,
            display_name: c.display_name,
            contact_name: c.contact_name,
            promoted_app_name: c.promoted_app_name,
            email: c.email,
            country_code: c.country_code,
            follower_count: c.follower_count,
            following_count: c.following_count,
            avg_views: c.avg_views,
            median_views: c.median_views,
            most_viral_video_url: c.most_viral_video_url,
            most_viral_video_views: c.most_viral_video_views,
            language_code: c.language_code,
            scraped_at: c.scraped_at,
            contact_status: c.contact_status,
            contact_priority_at: c.contact_priority_at,
            contacted_at: c.contacted_at,
            videos_count: lists::count(videos, record::video_of(c.handle)) as usize,
            follows_count: lists::count(follows, record::follow_of(c.handle)) as usize,
        }
}

struct CreatorDisplay<'a> {
    videos: &'a Vec<VideoRow>,
    follows: &'a Vec<FollowRow>,
}

impl<'a> RowDisplay<CreatorRow, CreatorListItem> for CreatorDisplay<'a> {
    closed spec fn shown(&self) -> spec_fn(CreatorView) -> CreatorShown {
        creator_shown(table::views(self.videos@), table::views(self.follows@))
    }

    fn show(&self, row: &CreatorRow) -> (r: CreatorListItem) {
        CreatorListItem {
            handle: row.handle.clone(),
            display_name: models::copy_opt(&row.display_name),
            contact_name: models::copy_opt(&row.contact_name),
            promoted_app_name: models::copy_opt(&row.promoted_app_name),
            email: models::copy_opt(&row.email),
            country_code: models::copy_opt(&row.country_code),
            follower_count: row.follower_count,
            following_count: row.following_count,
            avg_views: row.avg_views,
            median_views: row.median_views,
            most_viral_video_url: models::copy_opt(&row.most_viral_video_url),
            most_viral_video_views: row.most_viral_video_views,
            language_code: row.language_code.clone(),
            scraped_at: row.scraped_at.clone(),
            contact_status: row.contact_status,
            contact_priority_at: models::copy_opt(&row.contact_priority_at),
            contacted_at: models::copy_opt(&row.contacted_at),
            videos_count: table::count_rows(
                self.videos,
                &VideoOf { handle: row.handle.as_str() },
            ),
            follows_count: table::count_rows(
                self.follows,
                &FollowOf { handle: row.handle.as_str() },
            ),
        }
    }
}

/// The number moved into the range of lengths that a list may have.
pub open spec fn list_length(limit: usize) -> nat {
    if limit < LEAST_CREATORS {
        LEAST_CREATORS as nat
    } else if limit > MOST_CREATORS {
        MOST_CREATORS as nat
    } else {
        limit as nat
    }
}

fn clamp_length(limit: usize) -> (r: usize)
    ensures
        r == list_length(limit),
{
    if limit < LEAST_CREATORS {
        LEAST_CREATORS
    } else if limit > MOST_CREATORS {
        MOST_CREATORS
    } else {
        limit
    }
}

/// All creators that are asked for, in the order that is asked for.
pub open spec fn listed_creators(
    db: DatabaseView,
    sort_by: Seq<char>,
    sort_dir: Seq<char>,
    asks: ListView,
) -> Seq<CreatorView> {
    table::chosen(
        db.creators,
        listed_by(asks),
        creator_order(column_of(sort_by)),
        seq![is_descending(sort_dir), false],
    )
}

/// A page of the creators that are asked for.
pub open spec fn listed_page(
    db: DatabaseView,
    sort_by: Seq<char>,
    sort_dir: Seq<char>,
    asks: ListView,
    limit: usize,
    offset: usize,
) -> Seq<CreatorShown> {
    table::page(
        listed_creators(db, sort_by, sort_dir, asks),
        list_length(limit),
        listing::skipped(offset),
    ).map_values(creator_shown(db.videos, db.follows))
}

impl Database {
    /// The creators that are asked for, in the order that is asked for.
    pub fn list_creators(&self, sort_by: &str, sort_dir: &str, f: &CreatorListFilters) -> (r: Vec<
        CreatorListItem,
    >)
        ensures
            table::views(r@) == listed_page(self@, sort_by@, sort_dir@, f@, f.limit, f.offset),
    {
        let key: CreatorOrder = CreatorOrder {
            column: sort_column(sort_by),
            descending: !text::eq_ignoring_case(sort_dir, "asc"),
        };
        table::list_rows(
            &self.creators,
            &Listed::new(f),
            &key,
            &CreatorDisplay { videos: &self.videos, follows: &self.follows },
            clamp_length(f.limit),
            listing::start_of(f.offset),
        )
    }

    /// How many creators are asked for.
    pub fn count_creators(&self, f: &CreatorListFilters) -> (r: usize)
        ensures
            r == lists::count(self@.creators, listed_by(f@)),
    {
        table::count_rows(&self.creators, &Listed::new(f))
    }
}

/// The first `n` pages of the creators that are asked for, taken in turn.
pub open spec fn listed_pages(
    db: DatabaseView,
    sort_by: Seq<char>,
    sort_dir: Seq<char>,
    asks: ListView,
    limit: usize,
    n: nat,
) -> Seq<CreatorShown>
    decreases n,
{
    if n == 0 {
        Seq::empty()
    } else {
        listed_pages(db, sort_by, sort_dir, asks, limit, (n - 1) as nat) + listed_page(
            db,
            sort_by,
            sort_dir,
            asks,
            limit,
            ((n - 1) * list_length(limit)) as usize,
        )
    }
}

proof fn lemma_listed_pages(
    db: DatabaseView,
    sort_by: Seq<char>,
    sort_dir: Seq<char>,
    asks: ListView,
    limit: usize,
    n: nat,
)
    requires
        n * list_length(limit) <= usize::MAX,
        n * list_length(limit) <= i64::MAX,
    ensures
        listed_pages(db, sort_by, sort_dir, asks, limit, n) == table::pages(
            listed_creators(db, sort_by, sort_dir, asks),
            list_length(limit),
            n,
        ).map_values(creator_shown(db.videos, db.follows)),
    decreases n,
{
    let all = listed_creators(db, sort_by, sort_dir, asks);
    let size = list_length(limit);
    let shown = creator_shown(db.videos, db.follows);
    if n == 0 {
        assert(table::pages(all, size, n).map_values(shown) =~= Seq::<CreatorShown>::empty());
    } else {
        assert(n * size == (n - 1) * size + size) by (nonlinear_arith);
        assert((n - 1) * size >= 0) by (nonlinear_arith)
            requires
                n >= 1,
        ;
        lemma_listed_pages(db, sort_by, sort_dir, asks, limit, (n - 1) as nat);
        assert(listed_pages(db, sort_by, sort_dir, asks, limit, n) =~= table::pages(
            all,
            size,
            n,
        ).map_values(shown));
    }
}

/// The pages of creators, taken in turn up to one without creators, are the
/// creators that are counted, each once.
pub proof fn law_pages_are_what_is_counted(
    db: DatabaseView,
    sort_by: Seq<char>,
    sort_dir: Seq<char>,
    asks: ListView,
    limit: usize,
    n: nat,
)
    requires
        db.wf(),
        n * list_length(limit) <= usize::MAX,
        n * list_length(limit) <= i64::MAX,
        listed_page(
            db,
            sort_by,
            sort_dir,
            asks,
            limit,
            (n * list_length(limit)) as usize,
        ).len() == 0,
    ensures
        ({
            let all = listed_pages(db, sort_by, sort_dir, asks, limit, n);
            let shown = creator_shown(db.videos, db.follows);
            &&& all.len() == lists::count(db.creators, listed_by(asks))
            &&& forall|i: int, j: int|
                0 <= i < j < all.len() ==> (#[trigger] all[i]).handle != (#[trigger] all[j]).handle
            &&& forall|k: int|
                0 <= k < db.creators.len() && listed_by(asks)(#[trigger] db.creators[k])
                    ==> all.contains(shown(db.creators[k]))
        }),
{
    let found = listed_creators(db, sort_by, sort_dir, asks);
    let size = list_length(limit);
    let shown = creator_shown(db.videos, db.follows);
    let all = listed_pages(db, sort_by, sort_dir, asks, limit, n);
    lemma_listed_pages(db, sort_by, sort_dir, asks, limit, n);
    table::lemma_pages(found, size, n);
    assert(all == found.map_values(shown));
    let id = rows::creator_key();
    table::lemma_chosen(
        db.creators,
        listed_by(asks),
        creator_order(column_of(sort_by)),
        seq![is_descending(sort_dir), false],
        id,
    );
    assert forall|i: int, j: int| 0 <= i < j < all.len() implies (#[trigger] all[i]).handle != (
    #[trigger] all[j]).handle by {
        assert(id(found[i]) != id(found[j]));
    }
    assert forall|k: int|
        0 <= k < db.creators.len() && listed_by(asks)(
            #[trigger] db.creators[k],
        ) implies all.contains(shown(db.creators[k])) by {
        assert(db.creators.contains(db.creators[k]));
        assert(found.contains(db.creators[k]));
        let i = choose|i: int| 0 <= i < found.len() && found[i] == db.creators[k];
        assert(all[i] == shown(db.creators[k]));
    }
}

/// A page has creators as long as those before it are not all that are counted.
pub proof fn law_page_is_empty_after_the_last(
    db: DatabaseView,
    sort_by: Seq<char>,
    sort_dir: Seq<char>,
    asks: ListView,
    limit: usize,
    offset: usize,
)
    requires
        offset <= i64::MAX,
    ensures
        listed_page(db, sort_by, sort_dir, asks, limit, offset).len() == 0 <==> lists::count(
            db.creators,
            listed_by(asks),
        ) <= offset,
{
    let hits = db.creators.filter(listed_by(asks));
    ranking::lemma_ranking_len(
        hits.map_values(creator_order(column_of(sort_by))),
        seq![is_descending(sort_dir), false],
    );
}

/// What is asked of creators, and so how many are counted, does not depend on the
/// page.
pub proof fn law_count_ignores_the_page(f: CreatorListFilters, limit: usize, offset: usize)
    ensures
        (CreatorListFilters { limit: limit, offset: offset, ..f })@ == f@,
{
}

// ---------------------------------------------------------------------------
// Creators whose language is to be found again
// ---------------------------------------------------------------------------
/// What a review of languages reads.
pub open spec fn review_shown() -> spec_fn(CreatorView) -> ReviewShown {
    |c: CreatorView|
        ReviewShown {
            handle: c.handle,
            bio: c.bio,
            latest_content_text: c.latest_content_text,
            language_code: c.language_code,
        }
}

struct ReviewDisplay {}

impl RowDisplay<CreatorRow, LanguageReviewCreator> for ReviewDisplay {
    closed spec fn shown(&self) -> spec_fn(CreatorView) -> ReviewShown {
        review_shown()
    }

    fn show(&self, row: &CreatorRow) -> (r: LanguageReviewCreator) {
        LanguageReviewCreator {
            handle: row.handle.clone(),
            bio: row.bio.clone(),
            latest_content_text: row.latest_content_text.clone(),
            language_code: row.language_code.clone(),
        }
    }
}

/// Creators are ordered by handle, whatever its case.
pub open spec fn handle_order() -> spec_fn(CreatorView) -> Seq<SortView> {
    |c: CreatorView| seq![SortView::Text(text::lower(c.handle))]
}

struct HandleOrder {}

impl RowKey<CreatorRow> for HandleOrder {
    closed spec fn key(&self) -> spec_fn(CreatorView) -> Seq<SortView> {
        handle_order()
    }

    closed spec fn directions(&self) -> Seq<bool> {
        seq![false]
    }

    fn key_of(&self, row: &CreatorRow) -> (r: Vec<SortValue>) {
        let r: Vec<SortValue> = vec![SortValue::Text(text::to_lower(row.handle.as_str()))];
        assert(ranking::key_view(r@) =~= handle_order()(row@));
        r
    }

    fn descending(&self) -> (r: Vec<bool>) {
        let r: Vec<bool> = vec![false];
        assert(r@ =~= seq![false]);
        r
    }
}

/// Creators by handle, at most `limit` of them where that is given.
pub open spec fn reviewed(creators: Seq<CreatorView>, limit: Option<usize>) -> Seq<CreatorView> {
    let all = table::chosen(creators, table::always(), handle_order(), seq![false]);
    match limit {
        Some(n) => table::page(all, n as nat, 0),
        None => all,
    }
}

impl Database {
    /// The creators whose language is to be found again.
    pub fn list_language_review_creators(&self, limit: Option<usize>) -> (r: Vec<
        LanguageReviewCreator,
    >)
        ensures
            table::views(r@) == reviewed(self@.creators, limit).map_values(review_shown()),
    {
        let most: usize = match limit {
            Some(n) => n,
            None => self.creators.len(),
        };
        proof {
            table::lemma_whole_page(
                self@.creators,
                table::always(),
                handle_order(),
                seq![false],
                self@.creators.len(),
            );
        }
        table::list_rows(&self.creators, &EveryRow {  }, &HandleOrder {  }, &ReviewDisplay {  }, most, 0)
    }
}

// ---------------------------------------------------------------------------
// Languages and countries
// ---------------------------------------------------------------------------
/// The language of a creator, where it is known.
pub open spec fn known_language() -> spec_fn(CreatorView) -> Option<Seq<char>> {
    |c: CreatorView|
        if c.language_code.len() > 0 && c.language_code != models::UNKNOWN_LANGUAGE@ {
            Some(c.language_code)
        } else {
            None
        }
}

/// The country of a creator in upper case, where it is known.
pub open spec fn known_country() -> spec_fn(CreatorView) -> Option<Seq<char>> {
    |c: CreatorView|
        match c.country_code {
            Some(code) => if joins::unspaced(Some(code)) is Some {
                Some(text::upper(code))
            } else {
                None
            },
            None => None,
        }
}

/// The country of a creator in upper case, where it is known.
pub fn country_known(c: &CreatorRow) -> (r: Option<String>)
    ensures
        models::opt_text(r) == known_country()(c@),
{
    match &c.country_code {
        Some(code) => if joins::unspaced_of(&c.country_code).is_some() {
            Some(text::to_upper(code.as_str()))
        } else {
            None
        },
        None => None,
    }
}

impl Database {
    /// The languages of the creators, each once.
    pub fn list_languages(&self) -> (r: Vec<String>)
        ensures
            search::texts(r@) == order::sorted_set(
                lists::present(self@.creators.map_values(known_language())),
            ),
    {
        let ghost all = self@.creators.map_values(known_language());
        let mut found: Vec<String> = Vec::new();
        let mut i: usize = 0;
        assert(search::texts(found@) =~= lists::present(all.take(0)));
        while i < self.creators.len()
            invariant
                i <= self.creators@.len(),
                all == self@.creators.map_values(known_language()),
                search::texts(found@) == lists::present(all.take(i as int)),
            decreases self.creators@.len() - i,
        {
            let ghost before = found@;
            proof {
                assert(all.take(i + 1) =~= all.take(i as int).push(all[i as int]));
                lists::lemma_present_push(all.take(i as int), all[i as int]);
            }
            let code: &str = self.creators[i].language_code.as_str();
            if !text::empty(code) && !text::same(code, models::UNKNOWN_LANGUAGE) {
                found.push(code.to_string());
                assert(search::texts(found@) =~= search::texts(before).push(code@));
            }
            i = i + 1;
        }
        assert(all.take(i as int) =~= all);
        order::sort_texts(&found)
    }

    /// The countries of the creators, each once.
    pub fn list_countries(&self) -> (r: Vec<String>)
        ensures
            search::texts(r@) == order::sorted_set(
                lists::present(self@.creators.map_values(known_country())),
            ),
    {
        let ghost all = self@.creators.map_values(known_country());
        let mut found: Vec<String> = Vec::new();
        let mut i: usize = 0;
        assert(search::texts(found@) =~= lists::present(all.take(0)));
        while i < self.creators.len()
            invariant
                i <= self.creators@.len(),
                all == self@.creators.map_values(known_country()),
                search::texts(found@) == lists::present(all.take(i as int)),
            decreases self.creators@.len() - i,
        {
            let ghost before = found@;
            proof {
                assert(all.take(i + 1) =~= all.take(i as int).push(all[i as int]));
                lists::lemma_present_push(all.take(i as int), all[i as int]);
            }
            if let Some(code) = country_known(&self.creators[i]) {
                found.push(code);
                assert(search::texts(found@) =~= search::texts(before).push(code@));
            }
            i = i + 1;
        }
        assert(all.take(i as int) =~= all);
        order::sort_texts(&found)
    }
}

// ---------------------------------------------------------------------------
// Apps
// ---------------------------------------------------------------------------
/// The creator promotes the app.
pub open spec fn promotes(name: Seq<char>) -> spec_fn(CreatorView) -> bool {
    |c: CreatorView| c.promoted_app_name == Some(name)
}

struct Promotes<'a> {
    name: &'a str,
}

impl<'a> RowTest<CreatorRow> for Promotes<'a> {
    closed spec fn wanted(&self) -> spec_fn(CreatorView) -> bool {
        promotes(self.name@)
    }

    fn test(&self, row: &CreatorRow) -> (r: bool) {
        filters::is_text(&row.promoted_app_name, self.name)
    }
}

/// Apps are ordered by name, whatever its case.
pub open spec fn app_order() -> spec_fn(AppView) -> Seq<SortView> {
    |a: AppView| seq![SortView::Text(text::lower(a.name))]
}

struct AppOrder {}

impl RowKey<AppRow> for AppOrder {
    closed spec fn key(&self) -> spec_fn(AppView) -> Seq<SortView> {
        app_order()
    }

    closed spec fn directions(&self) -> Seq<bool> {
        seq![false]
    }

    fn key_of(&self, row: &AppRow) -> (r: Vec<SortValue>) {
        let r: Vec<SortValue> = vec![SortValue::Text(text::to_lower(row.name.as_str()))];
        assert(ranking::key_view(r@) =~= app_order()(row@));
        r
    }

    fn descending(&self) -> (r: Vec<bool>) {
        let r: Vec<bool> = vec![false];
        assert(r@ =~= seq![false]);
        r
    }
}

/// All apps by name.
pub open spec fn apps_by_name(apps: Seq<AppView>) -> Seq<AppView> {
    table::chosen(apps, table::always(), app_order(), seq![false])
}

pub open spec fn name_shown() -> spec_fn(AppView) -> Seq<char> {
    |a: AppView| a.name
}

struct NameDisplay {}

impl RowDisplay<AppRow, String> for NameDisplay {
    closed spec fn shown(&self) -> spec_fn(AppView) -> Seq<char> {
        name_shown()
    }

    fn show(&self, row: &AppRow) -> (r: String) {
        row.name.clone()
    }
}

/// An app, with the number of creators that promote it.
pub open spec fn app_shown(creators: Seq<CreatorView>) -> spec_fn(AppView) -> AppShown {
    |a: AppView|
        AppShown {
            name: a.name,
            creator_count: lists::count(creators, promotes(a.name)) as usize,
            policy: a.policy,
        }
}

struct AppDisplay<'a> {
    creators: &'a Vec<CreatorRow>,
}

impl<'a> RowDisplay<AppRow, AppSummary> for AppDisplay<'a> {
    closed spec fn shown(&self) -> spec_fn(AppView) -> AppShown {
        app_shown(table::views(self.creators@))
    }

    fn show(&self, row: &AppRow) -> (r: AppSummary) {
        AppSummary {
            name: row.name.clone(),
            creator_count: table::count_rows(self.creators, &Promotes { name: row.name.as_str() }),
            policy: row.policy,
        }
    }
}

impl Database {
    /// The names of the apps.
    pub fn list_app_names(&self) -> (r: Vec<String>)
        ensures
            search::texts(r@) == apps_by_name(self@.apps).map_values(name_shown()),
    {
        proof {
            table::lemma_whole_page(
                self@.apps,
                table::always(),
                app_order(),
                seq![false],
                self@.apps.len(),
            );
        }
        let r: Vec<String> = table::list_rows(
            &self.apps,
            &EveryRow {  },
            &AppOrder {  },
            &NameDisplay {  },
            self.apps.len(),
            0,
        );
        assert(search::texts(r@) =~= table::views(r@));
        r
    }

    /// The apps, and how many creators promote each.
    pub fn list_app_summaries(&self) -> (r: Vec<AppSummary>)
        ensures
            table::views(r@) == apps_by_name(self@.apps).map_values(app_shown(self@.creators)),
    {
        proof {
            table::lemma_whole_page(
                self@.apps,
                table::always(),
                app_order(),
                seq![false],
                self@.apps.len(),
            );
        }
        table::list_rows(
            &self.apps,
            &EveryRow {  },
            &AppOrder {  },
            &AppDisplay { creators: &self.creators },
            self.apps.len(),
            0,
        )
    }
}

// ---------------------------------------------------------------------------
// The accounts that a creator follows
// ---------------------------------------------------------------------------
/// Accounts are ordered by handle, whatever its case.
pub open spec fn account_order() -> spec_fn(FollowView) -> Seq<SortView> {
    |f: FollowView| seq![SortView::Text(text::lower(f.follows_handle))]
}

struct AccountOrder {}

impl RowKey<FollowRow> for AccountOrder {
    closed spec fn key(&self) -> spec_fn(FollowView) -> Seq<SortView> {
        account_order()
    }

    closed spec fn directions(&self) -> Seq<bool> {
        seq![false]
    }

    fn key_of(&self, row: &FollowRow) -> (r: Vec<SortValue>) {
        let r: Vec<SortValue> = vec![SortValue::Text(text::to_lower(row.follows_handle.as_str()))];
        assert(ranking::key_view(r@) =~= account_order()(row@));
        r
    }

    fn descending(&self) -> (r: Vec<bool>) {
        let r: Vec<bool> = vec![false];
        assert(r@ =~= seq![false]);
        r
    }
}

pub open spec fn account_shown() -> spec_fn(FollowView) -> Seq<char> {
    |f: FollowView| f.follows_handle
}

struct AccountDisplay {}

impl RowDisplay<FollowRow, String> for AccountDisplay {
    closed spec fn shown(&self) -> spec_fn(FollowView) -> Seq<char> {
        account_shown()
    }

    fn show(&self, row: &FollowRow) -> (r: String) {
        row.follows_handle.clone()
    }
}

/// The accounts that the creator follows, by handle.
pub open spec fn accounts_of(follows: Seq<FollowView>, handle: Seq<char>) -> Seq<Seq<char>> {
    table::chosen(
        follows,
        record::follow_of(handle),
        account_order(),
        seq![false],
    ).map_values(account_shown())
}

impl Database {
    /// The accounts that a creator follows.
    pub fn list_following_handles(&self, handle: &str) -> (r: Result<Vec<String>, DbError>)
        ensures
            match handles::normalized_handle(handle@) {
                None => r == Err::<Vec<String>, DbError>(DbError::InvalidHandle),
                Some(h) => r matches Ok(list) && search::texts(list@) == accounts_of(
                    self@.follows,
                    h,
                ),
            },
    {
        let handle: String = match handles::normalize_handle(handle) {
            Some(handle) => handle,
            None => {
                return Err(DbError::InvalidHandle);
            },
        };
        proof {
            table::lemma_whole_page(
                self@.follows,
                record::follow_of(handle@),
                account_order(),
                seq![false],
                self@.follows.len(),
            );
        }
        let r: Vec<String> = table::list_rows(
            &self.follows,
            &FollowOf { handle: handle.as_str() },
            &AccountOrder {  },
            &AccountDisplay {  },
            self.follows.len(),
            0,
        );
        assert(search::texts(r@) =~= table::views(r@));
        Ok(r)
    }
}

} // verus!
