//! What requests to the dashboard ask for.

use vstd::prelude::*;
use crate::crawler::run;
use crate::db::creator_lists;
use crate::db::creator_lists::{CreatorListFilters, ListView};
use crate::db::filters;
use crate::db::filters::DbError;
use crate::floating::Real;
use crate::models;
use crate::search;

verus! {

/// The smallest page.
pub const LEAST_PAGE: usize = 1;

/// The greatest page.
pub const GREATEST_PAGE: usize = 500;

/// How many rows a page of jobs has, unless the request says so.
pub const QUEUE_PAGE: usize = 100;

/// How many rows a page of creators has, unless the request says so.
pub const CREATOR_PAGE: usize = 50;

/// How many seeds are shown.
pub const SEED_PAGE: usize = 500;

// ---------------------------------------------------------------------------
// Refusals
// ---------------------------------------------------------------------------
/// Why a request is refused.
#[derive(Debug, Clone, Copy, PartialEq, Eq, Structural)]
pub enum ApiError {
    /// The request names no handle.
    NoHandle,
    /// A run over the queue is going on.
    QueueRunning,
    /// A run over the queue is going on, and another is asked for.
    ScraperRunning,
    /// A frontier run is going on.
    FrontierRunning,
    /// The database refuses the request.
    Database(DbError),
}

impl ApiError {
    /// The status of the reply.
    pub open spec fn code(self) -> u16 {
        match self {
            ApiError::NoHandle => 400,
            ApiError::QueueRunning | ApiError::ScraperRunning | ApiError::FrontierRunning => 409,
            ApiError::Database(_) => 500,
        }
    }

    /// The status of the reply.
    pub fn status(self) -> (r: u16)
        ensures
            r == self.code(),
    {
        match self {
            ApiError::NoHandle => 400,
            ApiError::QueueRunning | ApiError::ScraperRunning | ApiError::FrontierRunning => 409,
            ApiError::Database(_) => 500,
        }
    }

    /// The refusal in words.
    pub open spec fn text(self) -> Seq<char> {
        match self {
            ApiError::NoHandle => "at least one handle is required"@,
            ApiError::QueueRunning => "queue scraper is already running"@,
            ApiError::ScraperRunning => "scraper is already running"@,
            ApiError::FrontierRunning => "frontier crawler is already running"@,
            ApiError::Database(error) => error.text(),
        }
    }

    /// The refusal in words.
    pub fn message(self) -> (r: &'static str)
        ensures
            r@ == self.text(),
    {
        match self {
            ApiError::NoHandle => "at least one handle is required",
            ApiError::QueueRunning => "queue scraper is already running",
            ApiError::ScraperRunning => "scraper is already running",
            ApiError::FrontierRunning => "frontier crawler is already running",
            ApiError::Database(error) => error.message(),
        }
    }
}

// ---------------------------------------------------------------------------
// Lists of values
// ---------------------------------------------------------------------------
/// The values of a request: trimmed, without blank ones, in order of their
/// lower-case forms, each once whatever its case, and in upper case if that is
/// asked for.
pub open spec fn request_values(values: Seq<Seq<char>>, uppercase: bool) -> Seq<Seq<char>> {
    if uppercase {
        filters::upper_values(values)
    } else {
        filters::filter_values(values)
    }
}

/// The values of a request.
pub fn normalize_request_values(values: &Vec<String>, uppercase: bool) -> (r: Vec<String>)
    ensures
        search::texts(r@) == request_values(search::texts(values@), uppercase),
{
    if uppercase {
        filters::normalized_upper_values(values)
    } else {
        filters::normalized_values(values)
    }
}

/// The text, or the empty text.
pub open spec fn or_empty(value: Option<Seq<char>>) -> Seq<char> {
    match value {
        Some(t) => t,
        None => Seq::empty(),
    }
}

/// The values of a list with commas.
pub open spec fn csv_values(value: Option<Seq<char>>) -> Seq<Seq<char>> {
    request_values(search::split(or_empty(value), ","@), false)
}

/// The values of a list with commas.
pub fn parse_csv(value: Option<&str>) -> (r: Vec<String>)
    ensures
        search::texts(r@) == csv_values(filters::opt_str(value)),
{
    let list: String = match value {
        Some(t) => t.to_string(),
        None => String::new(),
    };
    assert(list@ =~= or_empty(filters::opt_str(value)));
    proof {
        reveal_strlit(",");
    }
    let parts: Vec<String> = search::split_by(list.as_str(), ",");
    normalize_request_values(&parts, false)
}

// ---------------------------------------------------------------------------
// Pages
// ---------------------------------------------------------------------------
/// The page that a request asks for.
#[derive(Debug, Clone, Copy, PartialEq, Eq, Structural)]
pub struct PageRequest {
    pub limit: usize,
    pub offset: usize,
}

/// The number, or the other one where there is none.
pub open spec fn or_number(n: Option<usize>, other: usize) -> usize {
    match n {
        Some(n) => n,
        None => other,
    }
}

fn number_or(n: Option<usize>, other: usize) -> (r: usize)
    ensures
        r == or_number(n, other),
{
    match n {
        Some(n) => n,
        None => other,
    }
}

/// The page that a request asks for: it starts at the first row, and has
/// `usual` rows, unless the request says so, and never too many.
pub open spec fn asked_page(limit: Option<usize>, offset: Option<usize>, usual: usize) -> PageRequest {
    PageRequest {
        limit: run::clamped(or_number(limit, usual), LEAST_PAGE, GREATEST_PAGE),
        offset: or_number(offset, 0),
    }
}

/// The page that a request asks for.
pub fn page_request(limit: Option<usize>, offset: Option<usize>, usual: usize) -> (r: PageRequest)
    ensures
        r == asked_page(limit, offset, usual),
        LEAST_PAGE <= r.limit <= GREATEST_PAGE,
{
    PageRequest {
        limit: run::clamp(number_or(limit, usual), LEAST_PAGE, GREATEST_PAGE),
        offset: number_or(offset, 0),
    }
}

/// Where a page stands among all rows.
#[derive(Debug, Clone, Copy, PartialEq, Eq, Structural)]
pub struct PagePlace {
    pub total: usize,
    pub limit: usize,
    pub offset: usize,
    pub has_next: bool,
    pub has_prev: bool,
}

/// Where the page stands among `total` rows: there is a next page if there are
/// rows after it, and a previous one if it does not start at the first row.
pub fn place_of(page: PageRequest, total: usize) -> (r: PagePlace)
    ensures
        r == (PagePlace {
            total: total,
            limit: page.limit,
            offset: page.offset,
            has_next: page.offset + page.limit < total,
            has_prev: page.offset > 0,
        }),
{
    let has_next: bool = page.offset < total && total - page.offset > page.limit;
    PagePlace {
        total,
        limit: page.limit,
        offset: page.offset,
        has_next,
        has_prev: page.offset > 0,
    }
}

// ---------------------------------------------------------------------------
// Creators
// ---------------------------------------------------------------------------
/// A request for creators.
pub struct CreatorQuery {
    pub sort: Option<String>,
    pub dir: Option<String>,
    pub app_mode: Option<String>,
    pub apps: Option<String>,
    pub languages: Option<String>,
    pub countries: Option<String>,
    pub contact_statuses: Option<String>,
    pub email: Option<String>,
    pub min_followers: Option<i64>,
    pub max_followers: Option<i64>,
    pub min_following: Option<i64>,
    pub max_following: Option<i64>,
    pub min_median_views: Option<Real>,
    pub max_median_views: Option<Real>,
    pub min_avg_views: Option<Real>,
    pub max_avg_views: Option<Real>,
    pub limit: Option<usize>,
    pub offset: Option<usize>,
}

/// The text, or the other one where there is none.
pub open spec fn or_text(value: Option<Seq<char>>, other: Seq<char>) -> Seq<char> {
    match value {
        Some(t) => t,
        None => other,
    }
}

fn text_or(value: &Option<String>, other: &str) -> (r: String)
    ensures
        r@ == or_text(models::opt_text(*value), other@),
{
    match value {
        Some(t) => t.clone(),
        None => other.to_string(),
    }
}

fn csv_of(value: &Option<String>) -> (r: Vec<String>)
    ensures
        search::texts(r@) == csv_values(models::opt_text(*value)),
{
    match value {
        Some(t) => parse_csv(Some(t.as_str())),
        None => parse_csv(None),
    }
}

impl CreatorQuery {
    /// What the request asks of creators.
    pub open spec fn asks(self) -> ListView {
        ListView {
            app_mode: filters::app_mode(models::opt_text(self.app_mode)),
            apps: filters::filter_values(csv_values(models::opt_text(self.apps))),
            languages: filters::upper_values(csv_values(models::opt_text(self.languages))),
            countries: filters::upper_values(csv_values(models::opt_text(self.countries))),
            contacts: filters::filter_values(csv_values(models::opt_text(self.contact_statuses))),
            email: filters::email_filter(models::opt_text(self.email)),
            min_followers: self.min_followers,
            max_followers: self.max_followers,
            min_following: self.min_following,
            max_following: self.max_following,
            min_median_views: self.min_median_views,
            max_median_views: self.max_median_views,
            min_avg_views: self.min_avg_views,
            max_avg_views: self.max_avg_views,
        }
    }

    /// What the creators are ordered by: the median of the views, unless the
    /// request says so.
    pub fn sort_by(&self) -> (r: String)
        ensures
            r@ == or_text(models::opt_text(self.sort), "median_views"@),
    {
        text_or(&self.sort, "median_views")
    }

    /// In which direction the creators are ordered: the greatest first, unless
    /// the request says so.
    pub fn sort_dir(&self) -> (r: String)
        ensures
            r@ == or_text(models::opt_text(self.dir), "desc"@),
    {
        text_or(&self.dir, "desc")
    }

    /// The filters of the request.
    pub fn list_filters(&self) -> (r: CreatorListFilters)
        ensures
            r@ == self.asks(),
            r.limit == asked_page(self.limit, self.offset, CREATOR_PAGE).limit,
            r.offset == asked_page(self.limit, self.offset, CREATOR_PAGE).offset,
            creator_lists::list_length(r.limit) == r.limit,
    {
        let page: PageRequest = page_request(self.limit, self.offset, CREATOR_PAGE);
        CreatorListFilters {
            app_mode: models::copy_opt(&self.app_mode),
            app_names: csv_of(&self.apps),
            language_codes: csv_of(&self.languages),
            country_codes: csv_of(&self.countries),
            contact_statuses: csv_of(&self.contact_statuses),
            email_filter: models::copy_opt(&self.email),
            min_followers: self.min_followers,
            max_followers: self.max_followers,
            min_following: self.min_following,
            max_following: self.max_following,
            min_median_views: self.min_median_views,
            max_median_views: self.max_median_views,
            min_avg_views: self.min_avg_views,
            max_avg_views: self.max_avg_views,
            limit: page.limit,
            offset: page.offset,
        }
    }
}

// ---------------------------------------------------------------------------
// Seeds
// ---------------------------------------------------------------------------
/// The handles of a list that may be missing.
pub open spec fn listed_handles(handles: Option<Vec<String>>) -> Seq<Seq<char>> {
    match handles {
        Some(list) => search::texts(list@),
        None => Seq::empty(),
    }
}

/// All handles that a request names: those of its list, then the single one.
pub open spec fn all_handles(listed: Seq<Seq<char>>, single: Option<Seq<char>>) -> Seq<Seq<char>> {
    match single {
        Some(h) => listed.push(h),
        None => listed,
    }
}

/// The handles that a request for seeds names.
pub fn requested_seeds(handles: Option<Vec<String>>, handle: Option<String>) -> (r: Result<
    Vec<String>,
    ApiError,
>)
    ensures
        ({
            let all = all_handles(listed_handles(handles), models::opt_text(handle));
            match r {
                Ok(list) => all.len() > 0 && search::texts(list@) == all,
                Err(error) => all.len() == 0 && error == ApiError::NoHandle,
            }
        }),
{
    let ghost listed = listed_handles(handles);
    let mut list: Vec<String> = match handles {
        Some(list) => list,
        None => Vec::new(),
    };
    assert(search::texts(list@) =~= listed);
    if let Some(h) = handle {
        let ghost before = list@;
        list.push(h);
        assert(search::texts(list@) =~= search::texts(before).push(h@));
    }
    assert(search::texts(list@).len() == list@.len());
    if list.len() == 0 {
        Err(ApiError::NoHandle)
    } else {
        Ok(list)
    }
}

} // verus!
