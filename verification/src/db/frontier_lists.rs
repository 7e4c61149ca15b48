//! Lists of seeds and of the items of frontier runs.

use vstd::prelude::*;
use crate::db::frontier;
use crate::db::frontier::ItemOrder;
use crate::db::items::{
    FrontierBucketItem, FrontierRunItemView, QueueStatusCount, RunItemShown, SeedShown,
    StatusCountView,
};
use crate::db::joins;
use crate::db::listing;
use crate::db::listing::LIST_LIMIT;
use crate::db::record;
use crate::db::record::FollowOf;
use crate::db::rows::{
    BucketRow, BucketView, CreatorRow, CreatorView, Database, FollowRow, FollowView, ItemRow,
    ItemView, JobStatus,
};
use crate::db::table;
use crate::db::table::{EveryRow, RowDisplay, RowKey, RowTest};
use crate::lists;
use crate::models;
use crate::ranking;
use crate::ranking::{SortValue, SortView};
use crate::text;

verus! {

pub open spec fn followers_of(c: Option<CreatorView>) -> Option<i64> {
    match c {
        Some(c) => c.follower_count,
        None => None,
    }
}

pub open spec fn following_of(c: Option<CreatorView>) -> Option<i64> {
    match c {
        Some(c) => c.following_count,
        None => None,
    }
}

// ---------------------------------------------------------------------------
// Seeds
// ---------------------------------------------------------------------------
/// Seeds are ordered by when they were put in, then by handle.
pub open spec fn seed_order() -> spec_fn(BucketView) -> Seq<SortView> {
    |b: BucketView| seq![SortView::Text(b.added_at), SortView::Text(text::lower(b.handle))]
}

struct SeedOrder {}

impl RowKey<BucketRow> for SeedOrder {
    closed spec fn key(&self) -> spec_fn(BucketView) -> Seq<SortView> {
        seed_order()
    }

    closed spec fn directions(&self) -> Seq<bool> {
        seq![false, false]
    }

    fn key_of(&self, row: &BucketRow) -> (r: Vec<SortValue>) {
        let r: Vec<SortValue> = vec![
            SortValue::Text(row.added_at.clone()),
            SortValue::Text(text::to_lower(row.handle.as_str())),
        ];
        assert(ranking::key_view(r@) =~= seed_order()(row@));
        r
    }

    fn descending(&self) -> (r: Vec<bool>) {
        let r: Vec<bool> = vec![false, false];
        assert(r@ =~= seq![false, false]);
        r
    }
}

/// A seed with what is known of it.
pub open spec fn seed_shown(
    creators: Seq<CreatorView>,
    follows: Seq<FollowView>,
) -> spec_fn(BucketView) -> SeedShown {
    |b: BucketView|
        {
            let c = joins::creator_named(creators, Some(b.handle));
            SeedShown {
                handle: b.handle,
                added_at: b.added_at,
                source: b.source,
                promoted_app_name: joins::app_of(c),
                language_code: joins::language_of(c),
                follower_count: followers_of(c),
                following_count: following_of(c),
                follows_count: lists::count(follows, record::follow_of(b.handle)) as usize,
            }
        }
}

struct SeedDisplay<'a> {
    creators: &'a Vec<CreatorRow>,
    follows: &'a Vec<FollowRow>,
}

impl<'a> RowDisplay<BucketRow, FrontierBucketItem> for SeedDisplay<'a> {
    closed spec fn shown(&self) -> spec_fn(BucketView) -> SeedShown {
        seed_shown(table::views(self.creators@), table::views(self.follows@))
    }

    fn show(&self, row: &BucketRow) -> (r: FrontierBucketItem) {
        let follows_count: usize = table::count_rows(
            self.follows,
            &FollowOf { handle: row.handle.as_str() },
        );
        let mut r: FrontierBucketItem = FrontierBucketItem {
            handle: row.handle.clone(),
            added_at: row.added_at.clone(),
            source: models::copy_opt(&row.source),
            promoted_app_name: None,
            language_code: None,
            follower_count: None,
            following_count: None,
            follows_count,
        };
        if let Some(c) = joins::find_own(self.creators, row.handle.as_str()) {
            r.promoted_app_name = models::copy_opt(&c.promoted_app_name);
            r.language_code = Some(c.language_code.clone());
            r.follower_count = c.follower_count;
            r.following_count = c.following_count;
        }
        r
    }
}

impl Database {
    /// The seeds, the oldest first.
    pub fn list_frontier_bucket(&self, limit: usize) -> (r: Vec<FrontierBucketItem>)
        ensures
            table::views(r@) == table::page(
                table::chosen(self@.bucket, table::always(), seed_order(), seq![false, false]),
                listing::at_most(limit, LIST_LIMIT),
                0,
            ).map_values(seed_shown(self@.creators, self@.follows)),
    {
        table::list_rows(
            &self.bucket,
            &EveryRow {  },
            &SeedOrder {  },
            &SeedDisplay { creators: &self.creators, follows: &self.follows },
            listing::capped(limit, LIST_LIMIT),
            0,
        )
    }
}

// ---------------------------------------------------------------------------
// Items
// ---------------------------------------------------------------------------
/// The item belongs to the run.
pub open spec fn item_in(run_id: i64) -> spec_fn(ItemView) -> bool {
    |v: ItemView| v.run_id == run_id
}

struct ItemIn {
    run_id: i64,
}

impl RowTest<ItemRow> for ItemIn {
    closed spec fn wanted(&self) -> spec_fn(ItemView) -> bool {
        item_in(self.run_id)
    }

    fn test(&self, row: &ItemRow) -> (r: bool) {
        row.run_id == self.run_id
    }
}

/// An item with what is known of it.
pub open spec fn item_shown(
    creators: Seq<CreatorView>,
    follows: Seq<FollowView>,
) -> spec_fn(ItemView) -> RunItemShown {
    |v: ItemView|
        {
            let c = joins::creator_named(creators, Some(v.handle));
            RunItemShown {
                run_id: v.run_id,
                handle: v.handle,
                depth: v.depth,
                discovered_from: v.discovered_from,
                found_at: v.found_at,
                status: v.status,
                attempts: v.attempts,
                last_error: v.last_error,
                scraped_at: v.scraped_at,
                promoted_app_name: joins::app_of(c),
                language_code: joins::language_of(c),
                follower_count: followers_of(c),
                following_count: following_of(c),
                follows_count: lists::count(follows, record::follow_of(v.handle)) as usize,
            }
        }
}

struct ItemDisplay<'a> {
    creators: &'a Vec<CreatorRow>,
    follows: &'a Vec<FollowRow>,
}

impl<'a> RowDisplay<ItemRow, FrontierRunItemView> for ItemDisplay<'a> {
    closed spec fn shown(&self) -> spec_fn(ItemView) -> RunItemShown {
        item_shown(table::views(self.creators@), table::views(self.follows@))
    }

    fn show(&self, row: &ItemRow) -> (r: FrontierRunItemView) {
        let follows_count: usize = table::count_rows(
            self.follows,
            &FollowOf { handle: row.handle.as_str() },
        );
        let mut r: FrontierRunItemView = FrontierRunItemView {
            run_id: row.run_id,
            handle: row.handle.clone(),
            depth: row.depth,
            discovered_from: models::copy_opt(&row.discovered_from),
            found_at: row.found_at.clone(),
            status: row.status,
            attempts: row.attempts,
            last_error: models::copy_opt(&row.last_error),
            scraped_at: models::copy_opt(&row.scraped_at),
            promoted_app_name: None,
            language_code: None,
            follower_count: None,
            following_count: None,
            follows_count,
        };
        if let Some(c) = joins::find_own(self.creators, row.handle.as_str()) {
            r.promoted_app_name = models::copy_opt(&c.promoted_app_name);
            r.language_code = Some(c.language_code.clone());
            r.follower_count = c.follower_count;
            r.following_count = c.following_count;
        }
        r
    }
}

/// The items of the run that is asked for, in the order in which they are taken.
pub open spec fn items_of_run(items: Seq<ItemView>, run_id: i64) -> Seq<ItemView> {
    table::chosen(items, item_in(run_id), frontier::item_order(), frontier::item_directions())
}

/// The states of the items of a run.
pub open spec fn states_in(items: Seq<ItemView>, run_id: i64) -> Seq<JobStatus> {
    items.filter(item_in(run_id)).map_values(|v: ItemView| v.status)
}

/// How many items of the run have each status.
pub open spec fn item_counts(items: Seq<ItemView>, run_id: Option<i64>) -> Seq<StatusCountView> {
    match run_id {
        Some(id) => listing::status_counts(states_in(items, id)),
        None => Seq::empty(),
    }
}

impl Database {
    /// How many items of the run that is asked for have each status that
    /// occurs.
    pub fn frontier_item_status_counts(&self, run_id: Option<i64>) -> (r: Vec<QueueStatusCount>)
        ensures
            table::views(r@) == item_counts(
                self@.items,
                frontier::asked_run(self@.runs, run_id),
            ),
    {
        let id: i64 = match self.resolve_frontier_run_id(run_id) {
            Some(id) => id,
            None => {
                let none: Vec<QueueStatusCount> = Vec::new();
                assert(table::views(none@) =~= Seq::empty());
                return none;
            },
        };
        let hits: Vec<usize> = table::matching_rows(&self.items, &ItemIn { run_id: id });
        let ghost found = self@.items.filter(item_in(id));
        let ghost want = states_in(self@.items, id);
        let mut states: Vec<JobStatus> = Vec::new();
        let mut i: usize = 0;
        while i < hits.len()
            invariant
                i <= hits@.len(),
                hits@.len() == found.len(),
                want == found.map_values(|v: ItemView| v.status),
                forall|j: int|
                    0 <= j < hits@.len() ==> (#[trigger] hits@[j]) < self.items@.len()
                        && self.items@[hits@[j] as int]@ == found[j],
                states@ == want.take(i as int),
            decreases hits@.len() - i,
        {
            states.push(self.items[hits[i]].status);
            i = i + 1;
            assert(want.take(i as int) =~= want.take(i - 1).push(want[i - 1]));
        }
        assert(want.take(i as int) =~= want);
        listing::count_statuses(&states)
    }

    /// The items of the run that is asked for.
    pub fn list_frontier_run_items(&self, run_id: Option<i64>, limit: usize, offset: usize) -> (r:
        Vec<FrontierRunItemView>)
        ensures
            match frontier::asked_run(self@.runs, run_id) {
                Some(id) => table::views(r@) == table::page(
                    items_of_run(self@.items, id),
                    listing::at_most(limit, LIST_LIMIT),
                    listing::skipped(offset),
                ).map_values(item_shown(self@.creators, self@.follows)),
                None => r@.len() == 0,
            },
    {
        let id: i64 = match self.resolve_frontier_run_id(run_id) {
            Some(id) => id,
            None => {
                return Vec::new();
            },
        };
        table::list_rows(
            &self.items,
            &ItemIn { run_id: id },
            &ItemOrder {  },
            &ItemDisplay { creators: &self.creators, follows: &self.follows },
            listing::capped(limit, LIST_LIMIT),
            listing::start_of(offset),
        )
    }

    /// The number of items of the run that is asked for.
    pub fn count_frontier_run_items(&self, run_id: Option<i64>) -> (r: usize)
        ensures
            r == match frontier::asked_run(self@.runs, run_id) {
                Some(id) => lists::count(self@.items, item_in(id)),
                None => 0,
            },
    {
        match self.resolve_frontier_run_id(run_id) {
            Some(id) => table::count_rows(&self.items, &ItemIn { run_id: id }),
            None => 0,
        }
    }
}

} // verus!
