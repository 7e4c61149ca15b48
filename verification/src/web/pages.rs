//! The pages that the dashboard shows.

use vstd::prelude::*;
use crate::db::creator_lists;
use crate::db::filters;
use crate::db::frontier;
use crate::db::frontier_lists;
use crate::db::items::{
    CreatorListItem, FrontierBucketItem, FrontierRunItemView, FrontierRunRecord,
    QueueSourceViewItem, QueueStatusCount, QueueViewItem, RunShown,
};
use crate::db::listing;
use crate::db::listing::LIST_LIMIT;
use crate::db::rows;
use crate::db::rows::{Database, DatabaseView};
use crate::db::sources;
use crate::db::table;
use crate::lists;
use crate::models;
use crate::order;
use crate::web::requests;
use crate::web::requests::{
    CreatorQuery, PagePlace, PageRequest, CREATOR_PAGE, QUEUE_PAGE, SEED_PAGE,
};

verus! {

/// The page stands where the request asks, among `total` rows.
pub open spec fn is_place_of(place: PagePlace, page: PageRequest, total: nat) -> bool {
    &&& place.total == total
    &&& place.limit == page.limit
    &&& place.offset == page.offset
    &&& place.has_next == (page.offset + page.limit < total)
    &&& place.has_prev == (page.offset > 0)
}

// ---------------------------------------------------------------------------
// Jobs
// ---------------------------------------------------------------------------
/// A page of jobs.
pub struct QueuePage {
    pub items: Vec<QueueViewItem>,
    pub counts: Vec<QueueStatusCount>,
    pub place: PagePlace,
}

/// A page of jobs.
pub fn queue_page(
    db: &Database,
    status: Option<&str>,
    language: Option<&str>,
    app: Option<&str>,
    limit: Option<usize>,
    offset: Option<usize>,
) -> (r: QueuePage)
    ensures
        ({
            let page = requests::asked_page(limit, offset, QUEUE_PAGE);
            let status = models::non_blank(filters::opt_str(status));
            let language = filters::language_filter(filters::opt_str(language));
            let app = filters::app_filter(filters::opt_str(app));
            &&& table::views(r.items@) == table::page(
                listing::jobs_shown(db@, status, language, app),
                listing::at_most(page.limit, LIST_LIMIT),
                listing::skipped(page.offset),
            ).map_values(listing::job_shown())
            &&& table::views(r.counts@) == listing::status_counts(
                listing::job_statuses(db@.queue),
            )
            &&& is_place_of(
                r.place,
                page,
                lists::count(
                    db@.queue,
                    listing::row_shown(status, language, app, db@.creators),
                ),
            )
        }),
{
    let page: PageRequest = requests::page_request(limit, offset, QUEUE_PAGE);
    let items: Vec<QueueViewItem> = db.list_queue_view(
        status,
        language,
        app,
        page.limit,
        page.offset,
    );
    let total: usize = db.count_queue_view(status, language, app);
    QueuePage {
        items,
        counts: db.queue_status_counts(),
        place: requests::place_of(page, total),
    }
}

/// A page of the creators that jobs were found at.
pub struct SourcePage {
    pub items: Vec<QueueSourceViewItem>,
    pub place: PagePlace,
}

/// A page of the creators that jobs were found at.
pub fn source_page(
    db: &Database,
    status: Option<&str>,
    limit: Option<usize>,
    offset: Option<usize>,
) -> (r: SourcePage)
    ensures
        ({
            let page = requests::asked_page(limit, offset, QUEUE_PAGE);
            let status = models::non_blank(filters::opt_str(status));
            &&& table::views(r.items@) == table::page(
                table::chosen(
                    sources::groups(db@.creators, sources::finds(db@, status, db@.queue)),
                    table::always(),
                    sources::source_order(),
                    sources::source_directions(),
                ),
                listing::at_most(page.limit, LIST_LIMIT),
                listing::skipped(page.offset),
            ).map_values(sources::source_shown())
            &&& is_place_of(
                r.place,
                page,
                order::sorted_set(
                    lists::present(db@.queue.map_values(sources::found_at_source(status))),
                ).len(),
            )
        }),
{
    let page: PageRequest = requests::page_request(limit, offset, QUEUE_PAGE);
    let items: Vec<QueueSourceViewItem> = db.list_queue_source_view(
        status,
        page.limit,
        page.offset,
    );
    let total: usize = db.count_queue_source_view(status);
    SourcePage { items, place: requests::place_of(page, total) }
}

// ---------------------------------------------------------------------------
// Creators
// ---------------------------------------------------------------------------
/// A page of creators.
pub struct CreatorPage {
    pub creators: Vec<CreatorListItem>,
    pub place: PagePlace,
}

/// A page of creators.
pub fn creator_page(db: &Database, query: &CreatorQuery) -> (r: CreatorPage)
    ensures
        ({
            let page = requests::asked_page(query.limit, query.offset, CREATOR_PAGE);
            let sort = requests::or_text(models::opt_text(query.sort), "median_views"@);
            let dir = requests::or_text(models::opt_text(query.dir), "desc"@);
            &&& table::views(r.creators@) == table::page(
                table::chosen(
                    db@.creators,
                    creator_lists::listed_by(query.asks()),
                    creator_lists::creator_order(creator_lists::column_of(sort)),
                    seq![creator_lists::is_descending(dir), false],
                ),
                page.limit as nat,
                listing::skipped(page.offset),
            ).map_values(creator_lists::creator_shown(db@.videos, db@.follows))
            &&& is_place_of(
                r.place,
                page,
                lists::count(db@.creators, creator_lists::listed_by(query.asks())),
            )
        }),
{
    let page: PageRequest = requests::page_request(query.limit, query.offset, CREATOR_PAGE);
    let filters = query.list_filters();
    let sort: String = query.sort_by();
    let dir: String = query.sort_dir();
    let creators: Vec<CreatorListItem> = db.list_creators(sort.as_str(), dir.as_str(), &filters);
    let total: usize = db.count_creators(&filters);
    CreatorPage { creators, place: requests::place_of(page, total) }
}

// ---------------------------------------------------------------------------
// Frontier runs
// ---------------------------------------------------------------------------
/// The seeds.
pub struct SeedPage {
    pub items: Vec<FrontierBucketItem>,
    pub total: usize,
}

/// The seeds.
pub fn seed_page(db: &Database) -> (r: SeedPage)
    ensures
        table::views(r.items@) == table::page(
            table::chosen(
                db@.bucket,
                table::always(),
                frontier_lists::seed_order(),
                seq![false, false],
            ),
            SEED_PAGE as nat,
            0,
        ).map_values(frontier_lists::seed_shown(db@.creators, db@.follows)),
        r.total == db@.bucket.len(),
{
    SeedPage { items: db.list_frontier_bucket(SEED_PAGE), total: db.count_frontier_bucket() }
}

/// The run that is shown: the one that is asked for, else the latest.
pub open spec fn shown_run(db: DatabaseView, run_id: Option<i64>) -> Option<RunShown> {
    let row = match run_id {
        Some(id) => table::first(db.runs, rows::run_is(id)),
        None => frontier::latest(db.runs),
    };
    match row {
        Some(run) => Some(frontier::run_shown(run)),
        None => None,
    }
}

/// The number of the run that is shown.
pub open spec fn shown_id(db: DatabaseView, run_id: Option<i64>) -> Option<i64> {
    match shown_run(db, run_id) {
        Some(run) => Some(run.id),
        None => None,
    }
}

pub open spec fn run_view(run: Option<FrontierRunRecord>) -> Option<RunShown> {
    match run {
        Some(run) => Some(run@),
        None => None,
    }
}

fn run_to_show(db: &Database, run_id: Option<i64>) -> (r: Option<FrontierRunRecord>)
    ensures
        run_view(r) == shown_run(db@, run_id),
{
    match run_id {
        Some(id) => db.get_frontier_run(id),
        None => db.latest_frontier_run(),
    }
}

fn id_of(run: &Option<FrontierRunRecord>) -> (r: Option<i64>)
    ensures
        r == match run_view(*run) {
            Some(run) => Some(run.id),
            None => None,
        },
{
    match run {
        Some(run) => Some(run.id),
        None => None,
    }
}

/// A page of the items of a run.
pub struct FrontierItemPage {
    pub run: Option<FrontierRunRecord>,
    pub items: Vec<FrontierRunItemView>,
    pub counts: Vec<QueueStatusCount>,
    pub place: PagePlace,
}

/// A page of the items of a run.
pub fn frontier_item_page(
    db: &Database,
    run_id: Option<i64>,
    limit: Option<usize>,
    offset: Option<usize>,
) -> (r: FrontierItemPage)
    ensures
        ({
            let page = requests::asked_page(limit, offset, QUEUE_PAGE);
            let asked = frontier::asked_run(db@.runs, shown_id(db@, run_id));
            &&& run_view(r.run) == shown_run(db@, run_id)
            &&& match asked {
                Some(id) => table::views(r.items@) == table::page(
                    frontier_lists::items_of_run(db@.items, id),
                    listing::at_most(page.limit, LIST_LIMIT),
                    listing::skipped(page.offset),
                ).map_values(frontier_lists::item_shown(db@.creators, db@.follows)),
                None => r.items@.len() == 0,
            }
            &&& table::views(r.counts@) == frontier_lists::item_counts(db@.items, asked)
            &&& is_place_of(
                r.place,
                page,
                match asked {
                    Some(id) => lists::count(db@.items, frontier_lists::item_in(id)),
                    None => 0,
                },
            )
        }),
{
    let page: PageRequest = requests::page_request(limit, offset, QUEUE_PAGE);
    let run: Option<FrontierRunRecord> = run_to_show(db, run_id);
    let id: Option<i64> = id_of(&run);
    let items: Vec<FrontierRunItemView> = db.list_frontier_run_items(id, page.limit, page.offset);
    let total: usize = db.count_frontier_run_items(id);
    FrontierItemPage {
        run,
        items,
        counts: db.frontier_item_status_counts(id),
        place: requests::place_of(page, total),
    }
}

/// What the database says of frontier runs.
pub struct FrontierStatus {
    pub bucket_count: usize,
    pub latest_run: Option<FrontierRunRecord>,
    pub item_counts: Vec<QueueStatusCount>,
}

/// What the database says of the run with the number, else of the latest.
pub fn frontier_status(db: &Database, run_id: Option<i64>) -> (r: FrontierStatus)
    ensures
        r.bucket_count == db@.bucket.len(),
        run_view(r.latest_run) == shown_run(db@, run_id),
        table::views(r.item_counts@) == frontier_lists::item_counts(
            db@.items,
            frontier::asked_run(db@.runs, shown_id(db@, run_id)),
        ),
{
    let run: Option<FrontierRunRecord> = run_to_show(db, run_id);
    let id: Option<i64> = id_of(&run);
    FrontierStatus {
        bucket_count: db.count_frontier_bucket(),
        latest_run: run,
        item_counts: db.frontier_item_status_counts(id),
    }
}

} // verus!
