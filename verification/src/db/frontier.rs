//! Frontier runs: crawls that start at chosen seeds and go to a given depth.

use vstd::prelude::*;
use crate::db::filters;
use crate::db::filters::DbError;
use crate::db::items::{FrontierJob, FrontierRunRecord, RunShown};
use crate::db::joins;
use crate::db::queue;
use crate::db::queue::{KEPT_ERROR_CHARS, MAX_ATTEMPTS, STALE_NOTE};
use crate::db::record;
use crate::db::rows;
use crate::db::rows::{
    BucketRow, BucketView, Database, DatabaseView, ItemIs, ItemRow, ItemView, JobStatus, RunIs,
    RunRow, RunStatus, RunView, SeedIs,
};
use crate::db::table;
use crate::db::table::{RowChange, RowKey, RowTest};
use crate::handles;
use crate::models;
use crate::moment::{Clock, ClockView};
use crate::ranking;
use crate::ranking::{SortValue, SortView};
use crate::search;
use crate::text;

verus! {

// ---------------------------------------------------------------------------
// Seeds
// ---------------------------------------------------------------------------
/// The seeds after one was put in; one that is there stays as it is.
pub open spec fn with_seed(
    bucket: Seq<BucketView>,
    handle: Seq<char>,
    source: Option<Seq<char>>,
    now: Seq<char>,
) -> Seq<BucketView> {
    if table::some_row(bucket, rows::seed_is(handle)) {
        bucket
    } else {
        bucket.push(BucketView { handle: handle, added_at: now, source: source })
    }
}

/// Seeds with distinct handles in place of the seeds keep a database valid.
proof fn lemma_bucket_only(db: DatabaseView, bucket: Seq<BucketView>)
    requires
        db.wf(),
        table::distinct_by(bucket, rows::seed_key()),
    ensures
        (DatabaseView { bucket: bucket, ..db }).wf(),
{
}

impl Database {
    /// Puts a seed in. Returns whether it is new.
    pub fn add_frontier_seed(&mut self, handle: &str, source: Option<&str>, now: &str) -> (r: Result<
        bool,
        DbError,
    >)
        requires
            old(self)@.wf(),
        ensures
            final(self)@.wf(),
            match handles::normalized_handle(handle@) {
                None => r == Err::<bool, DbError>(DbError::InvalidHandle) && final(self)@ == old(self)@,
                Some(h) => r == Ok::<bool, DbError>(
                    !table::some_row(old(self)@.bucket, rows::seed_is(h)),
                ) && final(self)@ == (DatabaseView {
                    bucket: with_seed(
                        old(self)@.bucket,
                        h,
                        models::non_blank(filters::opt_str(source)),
                        now@,
                    ),
                    ..old(self)@
                }),
            },
    {
        let ghost start = self@;
        let handle: String = match handles::normalize_handle(handle) {
            Some(handle) => handle,
            None => {
                return Err(DbError::InvalidHandle);
            },
        };
        if table::any_row(&self.bucket, &SeedIs { handle: handle.as_str() }) {
            return Ok(false);
        }
        let ghost before = self.bucket@;
        let row: BucketRow = BucketRow {
            handle,
            added_at: now.to_string(),
            source: filters::trimmed_str(source),
        };
        self.bucket.push(row);
        proof {
            assert(table::views(self.bucket@) =~= start.bucket.push(row@));
            let key = rows::seed_key();
            assert forall|i: int| 0 <= i < start.bucket.len() implies key(
                #[trigger] start.bucket[i],
            ) != key(row@) by {
                if start.bucket[i].handle == row@.handle {
                    assert(rows::seed_is(row@.handle)(start.bucket[i]));
                }
            }
            table::lemma_distinct_push(start.bucket, row@, key);
            lemma_bucket_only(start, start.bucket.push(row@));
        }
        Ok(true)
    }

    /// Takes a seed out. Returns whether it was there.
    pub fn remove_frontier_seed(&mut self, handle: &str) -> (r: Result<bool, DbError>)
        requires
            old(self)@.wf(),
        ensures
            final(self)@.wf(),
            match handles::normalized_handle(handle@) {
                None => r == Err::<bool, DbError>(DbError::InvalidHandle) && final(self)@ == old(self)@,
                Some(h) => r == Ok::<bool, DbError>(
                    table::some_row(old(self)@.bucket, rows::seed_is(h)),
                ) && final(self)@ == (DatabaseView {
                    bucket: table::without(old(self)@.bucket, rows::seed_is(h)),
                    ..old(self)@
                }),
            },
    {
        let ghost start = self@;
        let handle: String = match handles::normalize_handle(handle) {
            Some(handle) => handle,
            None => {
                return Err(DbError::InvalidHandle);
            },
        };
        let test: SeedIs<'_> = SeedIs { handle: handle.as_str() };
        let there: bool = table::any_row(&self.bucket, &test);
        let _gone: usize = table::delete_rows(&mut self.bucket, &test);
        proof {
            table::lemma_distinct_filter(
                start.bucket,
                table::opposite(rows::seed_is(handle@)),
                rows::seed_key(),
            );
            lemma_bucket_only(start, table::without(start.bucket, rows::seed_is(handle@)));
        }
        Ok(there)
    }

    /// The number of seeds.
    pub fn count_frontier_bucket(&self) -> (r: usize)
        ensures
            r == self@.bucket.len(),
    {
        self.bucket.len()
    }
}

/// Taking out a seed that was just put in leaves the seeds as they were without
/// it.
pub proof fn law_seed_can_be_taken_out(
    bucket: Seq<BucketView>,
    handle: Seq<char>,
    source: Option<Seq<char>>,
    now: Seq<char>,
)
    ensures
        table::without(with_seed(bucket, handle, source, now), rows::seed_is(handle))
            == table::without(bucket, rows::seed_is(handle)),
{
    if !table::some_row(bucket, rows::seed_is(handle)) {
        let row = BucketView { handle: handle, added_at: now, source: source };
        search::lemma_filter_push(bucket, table::opposite(rows::seed_is(handle)), row);
    }
}

// ---------------------------------------------------------------------------
// Runs
// ---------------------------------------------------------------------------
/// The greatest number of a run, or zero.
pub open spec fn greatest_id(runs: Seq<RunView>) -> int
    decreases runs.len(),
{
    if runs.len() == 0 {
        0
    } else {
        let rest = greatest_id(runs.drop_last());
        if runs.last().id > rest {
            runs.last().id as int
        } else {
            rest
        }
    }
}

proof fn lemma_greatest_id(runs: Seq<RunView>)
    ensures
        greatest_id(runs) >= 0,
        forall|i: int| 0 <= i < runs.len() ==> (#[trigger] runs[i]).id <= greatest_id(runs),
        greatest_id(runs) > 0 ==> exists|i: int|
            0 <= i < runs.len() && (#[trigger] runs[i]).id == greatest_id(runs),
        greatest_id(runs) <= i64::MAX,
    decreases runs.len(),
{
    if runs.len() > 0 {
        let rest = runs.drop_last();
        lemma_greatest_id(rest);
        assert forall|i: int| 0 <= i < runs.len() implies (#[trigger] runs[i]).id <= greatest_id(
            runs,
        ) by {
            if i < rest.len() {
                assert(rest[i] == runs[i]);
            }
        }
        if greatest_id(runs) > 0 {
            if runs.last().id > greatest_id(rest) {
                assert(runs[runs.len() - 1].id == greatest_id(runs));
            } else {
                let i = choose|i: int|
                    0 <= i < rest.len() && (#[trigger] rest[i]).id == greatest_id(rest);
                assert(runs[i].id == greatest_id(runs));
            }
        }
    }
}

fn find_greatest_id(runs: &Vec<RunRow>) -> (r: i64)
    ensures
        r == greatest_id(table::views(runs@)),
{
    let ghost all = table::views(runs@);
    let mut best: i64 = 0;
    let mut i: usize = 0;
    while i < runs.len()
        invariant
            i <= runs@.len(),
            all == table::views(runs@),
            best == greatest_id(all.take(i as int)),
        decreases runs@.len() - i,
    {
        proof {
            assert(all.take(i + 1).drop_last() =~= all.take(i as int));
            assert(all.take(i + 1).last() == runs@[i as int]@);
        }
        if runs[i].id > best {
            best = runs[i].id;
        }
        i = i + 1;
    }
    assert(all.take(i as int) =~= all);
    best
}

/// A run that starts.
pub open spec fn new_run(id: i64, seeds: nat, depth_limit: u8, now: Seq<char>) -> RunView {
    RunView {
        id: id,
        status: RunStatus::Running,
        created_at: now,
        started_at: Some(now),
        finished_at: None,
        seed_count: seeds as usize,
        depth_limit: depth_limit,
        processed: 0,
        succeeded: 0,
        failed: 0,
        skipped: 0,
        last_error: None,
    }
}

/// An item of a run that nobody has worked on.
pub open spec fn new_item(
    run_id: i64,
    handle: Seq<char>,
    depth: u8,
    discovered_from: Option<Seq<char>>,
    now: Seq<char>,
) -> ItemView {
    ItemView {
        run_id: run_id,
        handle: handle,
        depth: depth,
        discovered_from: discovered_from,
        found_at: now,
        status: JobStatus::Pending,
        attempts: 0,
        locked_at: None,
        scraped_at: None,
        last_error: None,
    }
}

/// A seed as an item of a run.
pub open spec fn seeded(run_id: i64, now: Seq<char>) -> spec_fn(BucketView) -> ItemView {
    |b: BucketView| new_item(run_id, b.handle, 0, None, now)
}

/// The number of the next run.
pub open spec fn next_id(runs: Seq<RunView>) -> i64 {
    (greatest_id(runs) + 1) as i64
}

/// The database after a run was started from the seeds.
pub open spec fn started(db: DatabaseView, depth_limit: u8, now: Seq<char>) -> DatabaseView {
    let id = next_id(db.runs);
    DatabaseView {
        runs: db.runs.push(new_run(id, db.bucket.len(), depth_limit, now)),
        items: db.items + db.bucket.map_values(seeded(id, now)),
        ..db
    }
}

/// A run, as it is shown.
pub open spec fn run_shown(run: RunView) -> RunShown {
    RunShown {
        id: run.id,
        status: run.status,
        created_at: run.created_at,
        started_at: run.started_at,
        finished_at: run.finished_at,
        seed_count: run.seed_count,
        depth_limit: run.depth_limit,
        processed: run.processed,
        succeeded: run.succeeded,
        failed: run.failed,
        skipped: run.skipped,
        last_error: run.last_error,
    }
}

fn read_frontier_run_row(row: &RunRow) -> (r: FrontierRunRecord)
    ensures
        r@ == run_shown(row@),
{
    FrontierRunRecord {
        id: row.id,
        status: row.status,
        created_at: row.created_at.clone(),
        started_at: models::copy_opt(&row.started_at),
        finished_at: models::copy_opt(&row.finished_at),
        seed_count: row.seed_count,
        depth_limit: row.depth_limit,
        processed: row.processed,
        succeeded: row.succeeded,
        failed: row.failed,
        skipped: row.skipped,
        last_error: models::copy_opt(&row.last_error),
    }
}

fn push_item(
    items: &mut Vec<ItemRow>,
    run_id: i64,
    handle: &str,
    depth: u8,
    discovered_from: Option<String>,
    now: &str,
)
    ensures
        table::views(final(items)@) == table::views(old(items)@).push(
            new_item(run_id, handle@, depth, models::opt_text(discovered_from), now@),
        ),
{
    let ghost before = items@;
    let row: ItemRow = ItemRow {
        run_id,
        handle: handle.to_string(),
        depth,
        discovered_from,
        found_at: now.to_string(),
        status: JobStatus::Pending,
        attempts: 0,
        locked_at: None,
        scraped_at: None,
        last_error: None,
    };
    items.push(row);
    assert(table::views(items@) =~= table::views(before).push(row@));
}

proof fn lemma_started(db: DatabaseView, depth_limit: u8, now: Seq<char>)
    requires
        db.wf(),
        greatest_id(db.runs) < i64::MAX,
    ensures
        started(db, depth_limit, now).wf(),
        table::first(started(db, depth_limit, now).runs, rows::run_is(next_id(db.runs))) == Some(
            new_run(next_id(db.runs), db.bucket.len(), depth_limit, now),
        ),
{
    let id = next_id(db.runs);
    let run = new_run(id, db.bucket.len(), depth_limit, now);
    let next = started(db, depth_limit, now);
    lemma_greatest_id(db.runs);
    table::lemma_distinct_push(db.runs, run, rows::run_key());
    assert(table::is_first(next.runs, rows::run_is(id), db.runs.len() as int));
    table::lemma_first(next.runs, rows::run_is(id), db.runs.len() as int);
    let fresh = db.bucket.map_values(seeded(id, now));
    let seed = rows::seed_key();
    let key = rows::item_key();
    assert forall|i: int| 0 <= i < db.items.len() implies (#[trigger] db.items[i]).run_id != id by {
        assert(rows::has_run(db.runs, db.items[i].run_id));
        let k = choose|k: int|
            0 <= k < db.runs.len() && rows::run_is(db.items[i].run_id)(#[trigger] db.runs[k]);
        assert(db.runs[k].id <= greatest_id(db.runs));
    }
    assert forall|i: int, j: int| 0 <= i < j < next.items.len() implies key(
        #[trigger] next.items[i],
    ) != key(#[trigger] next.items[j]) by {
        let n = db.items.len();
        if j < n {
            assert(next.items[i] == db.items[i]);
            assert(next.items[j] == db.items[j]);
        } else if i < n {
            assert(next.items[i] == db.items[i]);
            assert(next.items[j] == fresh[j - n]);
        } else {
            assert(next.items[i] == fresh[i - n]);
            assert(next.items[j] == fresh[j - n]);
            assert(seed(db.bucket[i - n]) != seed(db.bucket[j - n]));
        }
    }
    assert forall|i: int| 0 <= i < next.items.len() implies rows::has_run(
        next.runs,
        (#[trigger] next.items[i]).run_id,
    ) by {
        if i < db.items.len() {
            assert(next.items[i] == db.items[i]);
            assert(rows::has_run(db.runs, db.items[i].run_id));
            table::lemma_some_row_push(db.runs, run, rows::run_is(db.items[i].run_id));
        } else {
            assert(next.items[i] == fresh[i - db.items.len()]);
            table::lemma_some_row_push(db.runs, run, rows::run_is(id));
        }
    }
}

impl Database {
    /// Starts a run from the seeds. There is no run without seeds, nor after the
    /// last number.
    pub fn create_frontier_run_from_bucket(&mut self, depth_limit: u8, now: &str) -> (r: Result<
        FrontierRunRecord,
        DbError,
    >)
        requires
            old(self)@.wf(),
        ensures
            final(self)@.wf(),
            if old(self)@.bucket.len() == 0 {
                r == Err::<FrontierRunRecord, DbError>(DbError::EmptyBucket) && final(self)@
                    == old(self)@
            } else if greatest_id(old(self)@.runs) == i64::MAX {
                r == Err::<FrontierRunRecord, DbError>(DbError::NoRunNumber) && final(self)@
                    == old(self)@
            } else {
                r matches Ok(run) && run@ == run_shown(
                    new_run(
                        next_id(old(self)@.runs),
                        old(self)@.bucket.len(),
                        depth_limit,
                        now@,
                    ),
                ) && final(self)@ == started(old(self)@, depth_limit, now@)
            },
    {
        let ghost start = self@;
        if self.bucket.len() == 0 {
            return Err(DbError::EmptyBucket);
        }
        let last_id: i64 = find_greatest_id(&self.runs);
        if last_id == i64::MAX {
            return Err(DbError::NoRunNumber);
        }
        proof {
            lemma_greatest_id(start.runs);
            lemma_started(start, depth_limit, now@);
        }
        let id: i64 = last_id + 1;
        let run: RunRow = RunRow {
            id,
            status: RunStatus::Running,
            created_at: now.to_string(),
            started_at: Some(now.to_string()),
            finished_at: None,
            seed_count: self.bucket.len(),
            depth_limit,
            processed: 0,
            succeeded: 0,
            failed: 0,
            skipped: 0,
            last_error: None,
        };
        let shown: FrontierRunRecord = read_frontier_run_row(&run);
        self.runs.push(run);
        proof {
            assert(table::views(self.runs@) =~= start.runs.push(run@));
        }
        let ghost fresh = start.bucket.map_values(seeded(id, now@));
        let mut i: usize = 0;
        assert(start.items + fresh.take(0) =~= start.items);
        while i < self.bucket.len()
            invariant
                i <= self.bucket@.len(),
                start.bucket == table::views(self.bucket@),
                fresh == start.bucket.map_values(seeded(id, now@)),
                self@ == (DatabaseView {
                    runs: start.runs.push(run@),
                    items: start.items + fresh.take(i as int),
                    ..start
                }),
            decreases self.bucket@.len() - i,
        {
            push_item(&mut self.items, id, self.bucket[i].handle.as_str(), 0, None, now);
            i = i + 1;
            proof {
                assert(start.items + fresh.take(i as int) =~= (start.items + fresh.take(
                    i - 1,
                )).push(fresh[i - 1]));
            }
        }
        assert(fresh.take(i as int) =~= fresh);
        Ok(shown)
    }

    /// The run with the number.
    pub fn get_frontier_run(&self, run_id: i64) -> (r: Option<FrontierRunRecord>)
        ensures
            match r {
                Some(run) => table::first(self@.runs, rows::run_is(run_id)) matches Some(row) && run@
                    == run_shown(row),
                None => table::first(self@.runs, rows::run_is(run_id)) is None,
            },
    {
        match table::find_row(&self.runs, &RunIs { id: run_id }) {
            Some(i) => Some(read_frontier_run_row(&self.runs[i])),
            None => None,
        }
    }
}

/// Runs are ordered by number, the last first.
pub open spec fn run_order() -> spec_fn(RunView) -> Seq<SortView> {
    |run: RunView| seq![SortView::Number(run.id as int)]
}

struct RunOrder {}

impl RowKey<RunRow> for RunOrder {
    closed spec fn key(&self) -> spec_fn(RunView) -> Seq<SortView> {
        run_order()
    }

    closed spec fn directions(&self) -> Seq<bool> {
        seq![true]
    }

    fn key_of(&self, row: &RunRow) -> (r: Vec<SortValue>) {
        let r: Vec<SortValue> = vec![SortValue::Number(row.id as i128)];
        assert(ranking::key_view(r@) =~= run_order()(row@));
        r
    }

    fn descending(&self) -> (r: Vec<bool>) {
        let r: Vec<bool> = vec![true];
        assert(r@ =~= seq![true]);
        r
    }
}

/// The run with the greatest number.
pub open spec fn latest(runs: Seq<RunView>) -> Option<RunView> {
    let all = table::chosen(runs, table::always(), run_order(), seq![true]);
    if all.len() > 0 {
        Some(all[0])
    } else {
        None
    }
}

/// The number of the run that is asked for: the latest, unless one is given.
pub open spec fn asked_run(runs: Seq<RunView>, run_id: Option<i64>) -> Option<i64> {
    match run_id {
        Some(id) => Some(id),
        None => match latest(runs) {
            Some(run) => Some(run.id),
            None => None,
        },
    }
}

impl Database {
    fn latest_run(&self) -> (r: Option<usize>)
        ensures
            match r {
                Some(i) => i < self.runs@.len() && latest(self@.runs) == Some(
                    self.runs@[i as int]@,
                ),
                None => latest(self@.runs) is None,
            },
    {
        let places: Vec<usize> = table::select_rows(
            &self.runs,
            &table::EveryRow {  },
            &RunOrder {  },
            1,
            0,
        );
        let ghost all = table::chosen(self@.runs, table::always(), run_order(), seq![true]);
        assert(table::page(all, 1, 0).len() == if all.len() > 0 {
            1nat
        } else {
            0
        });
        if places.len() == 0 {
            None
        } else {
            assert(table::page(all, 1, 0)[0] == all[0]);
            Some(places[0])
        }
    }

    /// The run that was started last.
    pub fn latest_frontier_run(&self) -> (r: Option<FrontierRunRecord>)
        ensures
            match r {
                Some(run) => latest(self@.runs) matches Some(row) && run@ == run_shown(row),
                None => latest(self@.runs) is None,
            },
    {
        match self.latest_run() {
            Some(i) => Some(read_frontier_run_row(&self.runs[i])),
            None => None,
        }
    }

    /// The number of the run that is asked for.
    pub fn resolve_frontier_run_id(&self, run_id: Option<i64>) -> (r: Option<i64>)
        ensures
            r == asked_run(self@.runs, run_id),
    {
        match run_id {
            Some(id) => Some(id),
            None => match self.latest_run() {
                Some(i) => Some(self.runs[i].id),
                None => None,
            },
        }
    }
}

// ---------------------------------------------------------------------------
// Taking items
// ---------------------------------------------------------------------------
/// Items of the run whose worker did not come back are tried again.
pub open spec fn item_reclaimed(run_id: i64, stale_before: Seq<char>) -> spec_fn(
    ItemView,
) -> ItemView {
    |v: ItemView|
        if v.run_id == run_id && queue::is_stale(v.status, v.locked_at, stale_before) {
            ItemView {
                status: queue::after_failure(v.attempts),
                locked_at: None,
                last_error: joins::or_else(v.last_error, Some(STALE_NOTE@)),
                ..v
            }
        } else {
            v
        }
}

struct ReclaimItem<'a> {
    run_id: i64,
    stale_before: &'a str,
}

impl<'a> RowChange<ItemRow> for ReclaimItem<'a> {
    closed spec fn changed(&self) -> spec_fn(ItemView) -> ItemView {
        item_reclaimed(self.run_id, self.stale_before@)
    }

    fn apply(&self, row: &mut ItemRow) {
        if row.run_id == self.run_id && queue::stale(row.status, &row.locked_at, self.stale_before) {
            row.status = queue::status_after_failure(row.attempts);
            row.locked_at = None;
            if row.last_error.is_none() {
                row.last_error = Some(STALE_NOTE.to_string());
            }
        }
    }
}

/// The item belongs to the run and waits.
pub open spec fn open_item(run_id: i64) -> spec_fn(ItemView) -> bool {
    |v: ItemView| v.run_id == run_id && queue::is_open(v.status)
}

struct OpenItem {
    run_id: i64,
}

impl RowTest<ItemRow> for OpenItem {
    closed spec fn wanted(&self) -> spec_fn(ItemView) -> bool {
        open_item(self.run_id)
    }

    fn test(&self, row: &ItemRow) -> (r: bool) {
        let waits: bool = match row.status {
            JobStatus::Pending | JobStatus::Retry => true,
            _ => false,
        };
        row.run_id == self.run_id && waits
    }
}

/// Items are ordered by depth, then by when they were found, then by handle.
pub open spec fn item_order() -> spec_fn(ItemView) -> Seq<SortView> {
    |v: ItemView|
        seq![
            SortView::Number(v.depth as int),
            SortView::Text(v.found_at),
            SortView::Text(text::lower(v.handle)),
        ]
}

pub open spec fn item_directions() -> Seq<bool> {
    seq![false, false, false]
}

/// The order of items.
pub struct ItemOrder {}

impl RowKey<ItemRow> for ItemOrder {
    open spec fn key(&self) -> spec_fn(ItemView) -> Seq<SortView> {
        item_order()
    }

    open spec fn directions(&self) -> Seq<bool> {
        item_directions()
    }

    fn key_of(&self, row: &ItemRow) -> (r: Vec<SortValue>) {
        let r: Vec<SortValue> = vec![
            SortValue::Number(row.depth as i128),
            SortValue::Text(row.found_at.clone()),
            SortValue::Text(text::to_lower(row.handle.as_str())),
        ];
        assert(ranking::key_view(r@) =~= item_order()(row@));
        r
    }

    fn descending(&self) -> (r: Vec<bool>) {
        let r: Vec<bool> = vec![false, false, false];
        assert(r@ =~= item_directions());
        r
    }
}

/// The items before one of them is taken.
pub open spec fn items_refreshed(items: Seq<ItemView>, run_id: i64, clock: ClockView) -> Seq<
    ItemView,
> {
    items.map_values(item_reclaimed(run_id, clock.stale_before))
}

/// The items of the run that wait, the one whose turn it is first.
pub open spec fn items_waiting(items: Seq<ItemView>, run_id: i64, clock: ClockView) -> Seq<
    ItemView,
> {
    table::chosen(
        items_refreshed(items, run_id, clock),
        open_item(run_id),
        item_order(),
        item_directions(),
    )
}

/// The item that is taken, if there is one.
pub open spec fn next_item(items: Seq<ItemView>, run_id: i64, clock: ClockView) -> Option<
    ItemView,
> {
    if items_waiting(items, run_id, clock).len() > 0 {
        Some(items_waiting(items, run_id, clock)[0])
    } else {
        None
    }
}

/// A worker takes the item.
pub open spec fn item_taken(run_id: i64, handle: Seq<char>, attempts: u32, now: Seq<char>) -> spec_fn(
    ItemView,
) -> ItemView {
    |v: ItemView|
        if v.run_id == run_id && v.handle == handle {
            ItemView {
                status: JobStatus::Processing,
                attempts: attempts,
                locked_at: Some(now),
                last_error: None,
                ..v
            }
        } else {
            v
        }
}

struct TakeItem<'a> {
    run_id: i64,
    handle: &'a str,
    attempts: u32,
    now: &'a str,
}

impl<'a> RowChange<ItemRow> for TakeItem<'a> {
    closed spec fn changed(&self) -> spec_fn(ItemView) -> ItemView {
        item_taken(self.run_id, self.handle@, self.attempts, self.now@)
    }

    fn apply(&self, row: &mut ItemRow) {
        if row.run_id == self.run_id && text::same(row.handle.as_str(), self.handle) {
            row.status = JobStatus::Processing;
            row.attempts = self.attempts;
            row.locked_at = Some(self.now.to_string());
            row.last_error = None;
        }
    }
}

/// The items after one was taken.
pub open spec fn items_claimed(items: Seq<ItemView>, run_id: i64, clock: ClockView) -> Seq<
    ItemView,
> {
    let fresh = items_refreshed(items, run_id, clock);
    match next_item(items, run_id, clock) {
        Some(v) => fresh.map_values(
            item_taken(run_id, v.handle, (v.attempts + 1) as u32, clock.now),
        ),
        None => fresh,
    }
}

/// Items with distinct keys that belong to known runs, in place of the items,
/// keep a database valid.
proof fn lemma_items_only(db: DatabaseView, items: Seq<ItemView>)
    requires
        db.wf(),
        table::distinct_by(items, rows::item_key()),
        forall|i: int|
            0 <= i < items.len() ==> rows::has_run(db.runs, (#[trigger] items[i]).run_id),
    ensures
        (DatabaseView { items: items, ..db }).wf(),
{
}

/// A change that keeps keys keeps a database valid.
proof fn lemma_items_changed(db: DatabaseView, f: spec_fn(ItemView) -> ItemView)
    requires
        db.wf(),
        forall|v: ItemView|
            #![trigger f(v)]
            f(v).run_id == v.run_id && f(v).handle == v.handle,
    ensures
        (DatabaseView { items: db.items.map_values(f), ..db }).wf(),
{
    let items = db.items.map_values(f);
    table::lemma_distinct_map(db.items, f, rows::item_key());
    assert forall|i: int| 0 <= i < items.len() implies rows::has_run(
        db.runs,
        (#[trigger] items[i]).run_id,
    ) by {
        assert(items[i] == f(db.items[i]));
        assert(rows::has_run(db.runs, db.items[i].run_id));
    }
    lemma_items_only(db, items);
}

impl Database {
    /// Takes the item of the run whose turn it is.
    pub fn claim_next_frontier_item(&mut self, run_id: i64, clock: &Clock) -> (r: Option<
        FrontierJob,
    >)
        requires
            old(self)@.wf(),
            next_item(old(self)@.items, run_id, clock@) matches Some(v) ==> v.attempts < u32::MAX,
        ensures
            final(self)@.wf(),
            final(self)@ == (DatabaseView {
                items: items_claimed(old(self)@.items, run_id, clock@),
                ..old(self)@
            }),
            match r {
                Some(job) => match next_item(old(self)@.items, run_id, clock@) {
                    Some(v) => job.run_id == run_id && job.handle@ == v.handle && job.depth == v.depth
                        && job.attempts == v.attempts + 1,
                    None => false,
                },
                None => next_item(old(self)@.items, run_id, clock@) is None,
            },
    {
        let ghost start = self@;
        let ghost fresh = items_refreshed(start.items, run_id, clock@);
        let ghost waiting = items_waiting(start.items, run_id, clock@);
        table::update_rows(
            &mut self.items,
            &ReclaimItem { run_id, stale_before: clock.stale_before.as_str() },
        );
        proof {
            lemma_items_changed(start, item_reclaimed(run_id, clock@.stale_before));
        }
        let picked: Vec<usize> = table::select_rows(
            &self.items,
            &OpenItem { run_id },
            &ItemOrder {  },
            1,
            0,
        );
        proof {
            queue::lemma_chosen_members(fresh, open_item(run_id), item_order(), item_directions());
            assert(table::page(waiting, 1, 0).len() == if waiting.len() > 0 {
                1nat
            } else {
                0
            });
        }
        if picked.len() == 0 {
            return None;
        }
        let at: usize = picked[0];
        proof {
            assert(table::page(waiting, 1, 0)[0] == waiting[0]);
            assert(table::views(self.items@)[at as int] == waiting[0]);
            assert(fresh[at as int].attempts == start.items[at as int].attempts);
            lemma_items_changed(
                self@,
                item_taken(run_id, waiting[0].handle, (waiting[0].attempts + 1) as u32, clock@.now),
            );
        }
        let job: FrontierJob = FrontierJob {
            run_id,
            handle: self.items[at].handle.clone(),
            depth: self.items[at].depth,
            attempts: self.items[at].attempts + 1,
        };
        table::update_rows(
            &mut self.items,
            &TakeItem {
                run_id,
                handle: job.handle.as_str(),
                attempts: job.attempts,
                now: clock.now.as_str(),
            },
        );
        Some(job)
    }
}

// ---------------------------------------------------------------------------
// What became of items
// ---------------------------------------------------------------------------
/// The item was crawled.
pub open spec fn item_finished(run_id: i64, handle: Seq<char>, at: Seq<char>) -> spec_fn(
    ItemView,
) -> ItemView {
    |v: ItemView|
        if v.run_id == run_id && v.handle == handle {
            ItemView {
                status: JobStatus::Done,
                scraped_at: Some(at),
                locked_at: None,
                last_error: None,
                ..v
            }
        } else {
            v
        }
}

/// Crawling the item did not succeed.
pub open spec fn item_unsuccessful(run_id: i64, handle: Seq<char>, error: Seq<char>) -> spec_fn(
    ItemView,
) -> ItemView {
    |v: ItemView|
        if v.run_id == run_id && v.handle == handle {
            ItemView {
                status: queue::after_failure(v.attempts),
                locked_at: None,
                last_error: Some(search::cut(error, KEPT_ERROR_CHARS as nat)),
                ..v
            }
        } else {
            v
        }
}

struct FinishItem<'a> {
    run_id: i64,
    handle: &'a str,
    at: &'a str,
}

impl<'a> RowChange<ItemRow> for FinishItem<'a> {
    closed spec fn changed(&self) -> spec_fn(ItemView) -> ItemView {
        item_finished(self.run_id, self.handle@, self.at@)
    }

    fn apply(&self, row: &mut ItemRow) {
        if row.run_id == self.run_id && text::same(row.handle.as_str(), self.handle) {
            row.status = JobStatus::Done;
            row.scraped_at = Some(self.at.to_string());
            row.locked_at = None;
            row.last_error = None;
        }
    }
}

struct FailItem<'a> {
    run_id: i64,
    handle: &'a str,
    error: &'a str,
}

impl<'a> RowChange<ItemRow> for FailItem<'a> {
    closed spec fn changed(&self) -> spec_fn(ItemView) -> ItemView {
        item_unsuccessful(self.run_id, self.handle@, self.error@)
    }

    fn apply(&self, row: &mut ItemRow) {
        if row.run_id == self.run_id && text::same(row.handle.as_str(), self.handle) {
            row.status = queue::status_after_failure(row.attempts);
            row.locked_at = None;
            row.last_error = Some(search::cut_to(self.error, KEPT_ERROR_CHARS));
        }
    }
}

impl Database {
    /// Notes that an item was crawled.
    pub fn mark_frontier_item_done(&mut self, run_id: i64, handle: &str, now: &str) -> (r: Result<
        (),
        DbError,
    >)
        requires
            old(self)@.wf(),
        ensures
            final(self)@.wf(),
            match handles::normalized_handle(handle@) {
                None => r == Err::<(), DbError>(DbError::InvalidHandle) && final(self)@ == old(self)@,
                Some(h) => r == Ok::<(), DbError>(()) && final(self)@ == (DatabaseView {
                    items: old(self)@.items.map_values(item_finished(run_id, h, now@)),
                    ..old(self)@
                }),
            },
    {
        let ghost start = self@;
        let handle: String = match handles::normalize_handle(handle) {
            Some(handle) => handle,
            None => {
                return Err(DbError::InvalidHandle);
            },
        };
        table::update_rows(
            &mut self.items,
            &FinishItem { run_id, handle: handle.as_str(), at: now },
        );
        proof {
            lemma_items_changed(start, item_finished(run_id, handle@, now@));
        }
        Ok(())
    }

    /// Notes that crawling an item did not succeed.
    pub fn mark_frontier_item_failed(&mut self, run_id: i64, handle: &str, error: &str) -> (r:
        Result<(), DbError>)
        requires
            old(self)@.wf(),
        ensures
            final(self)@.wf(),
            match handles::normalized_handle(handle@) {
                None => r == Err::<(), DbError>(DbError::InvalidHandle) && final(self)@ == old(self)@,
                Some(h) => r == Ok::<(), DbError>(()) && final(self)@ == (DatabaseView {
                    items: old(self)@.items.map_values(item_unsuccessful(run_id, h, error@)),
                    ..old(self)@
                }),
            },
    {
        let ghost start = self@;
        let handle: String = match handles::normalize_handle(handle) {
            Some(handle) => handle,
            None => {
                return Err(DbError::InvalidHandle);
            },
        };
        table::update_rows(&mut self.items, &FailItem { run_id, handle: handle.as_str(), error });
        proof {
            lemma_items_changed(start, item_unsuccessful(run_id, handle@, error@));
        }
        Ok(())
    }
}

// ---------------------------------------------------------------------------
// Going deeper
// ---------------------------------------------------------------------------
/// The items after the accounts were put into the run; those that are in it
/// stay as they are.
pub open spec fn with_deeper(
    items: Seq<ItemView>,
    run_id: i64,
    depth: u8,
    source: Seq<char>,
    accounts: Seq<Seq<char>>,
    now: Seq<char>,
) -> Seq<ItemView>
    decreases accounts.len(),
{
    if accounts.len() == 0 {
        items
    } else {
        let rest = with_deeper(items, run_id, depth, source, accounts.drop_last(), now);
        if table::some_row(rest, rows::item_is(run_id, accounts.last())) {
            rest
        } else {
            rest.push(new_item(run_id, accounts.last(), depth, Some(source), now))
        }
    }
}

proof fn lemma_deeper(
    db: DatabaseView,
    run_id: i64,
    depth: u8,
    source: Seq<char>,
    accounts: Seq<Seq<char>>,
    now: Seq<char>,
)
    requires
        db.wf(),
        accounts.len() > 0 ==> rows::has_run(db.runs, run_id),
    ensures
        (DatabaseView {
            items: with_deeper(db.items, run_id, depth, source, accounts, now),
            ..db
        }).wf(),
        with_deeper(db.items, run_id, depth, source, accounts, now).len() >= db.items.len(),
        with_deeper(db.items, run_id, depth, source, accounts, now).len() <= db.items.len()
            + accounts.len(),
    decreases accounts.len(),
{
    if accounts.len() > 0 {
        let before = accounts.drop_last();
        lemma_deeper(db, run_id, depth, source, before, now);
        let rest = with_deeper(db.items, run_id, depth, source, before, now);
        let row = new_item(run_id, accounts.last(), depth, Some(source), now);
        if !table::some_row(rest, rows::item_is(run_id, accounts.last())) {
            let key = rows::item_key();
            assert forall|i: int| 0 <= i < rest.len() implies key(#[trigger] rest[i]) != key(
                row,
            ) by {
                if key(rest[i]) == key(row) {
                    assert(rows::item_is(run_id, accounts.last())(rest[i]));
                }
            }
            table::lemma_distinct_push(rest, row, key);
            lemma_items_only(DatabaseView { items: rest, ..db }, rest.push(row));
        }
    }
}

impl Database {
    /// Puts the accounts that a creator of the run follows into the run.
    /// Returns how many are new.
    pub fn enqueue_frontier_following(
        &mut self,
        run_id: i64,
        discovered_from: &str,
        depth: u8,
        accounts: &Vec<String>,
        now: &str,
    ) -> (r: Result<usize, DbError>)
        requires
            old(self)@.wf(),
        ensures
            final(self)@.wf(),
            match handles::normalized_handle(discovered_from@) {
                None => r == Err::<usize, DbError>(DbError::InvalidFrontierSource) && final(self)@
                    == old(self)@,
                Some(source) => {
                    let wanted = record::followed(source, search::texts(accounts@));
                    if wanted.len() > 0 && !rows::has_run(old(self)@.runs, run_id) {
                        r == Err::<usize, DbError>(DbError::UnknownRun) && final(self)@ == old(self)@
                    } else {
                        let deeper = with_deeper(
                            old(self)@.items,
                            run_id,
                            depth,
                            source,
                            wanted,
                            now@,
                        );
                        r == Ok::<usize, DbError>((deeper.len() - old(self)@.items.len()) as usize)
                            && final(self)@ == (DatabaseView { items: deeper, ..old(self)@ })
                    }
                },
            },
    {
        let ghost start = self@;
        let source: String = match handles::normalize_handle(discovered_from) {
            Some(source) => source,
            None => {
                return Err(DbError::InvalidFrontierSource);
            },
        };
        let wanted: Vec<String> = record::followed_by(source.as_str(), accounts);
        if wanted.len() == 0 {
            return Ok(0);
        }
        if !table::any_row(&self.runs, &RunIs { id: run_id }) {
            return Err(DbError::UnknownRun);
        }
        let ghost all = search::texts(wanted@);
        let mut added: usize = 0;
        let mut i: usize = 0;
        assert(all.take(0) =~= Seq::<Seq<char>>::empty());
        while i < wanted.len()
            invariant
                i <= wanted@.len(),
                added <= i,
                all == search::texts(wanted@),
                self@ == (DatabaseView {
                    items: with_deeper(
                        start.items,
                        run_id,
                        depth,
                        source@,
                        all.take(i as int),
                        now@,
                    ),
                    ..start
                }),
                added == self@.items.len() - start.items.len(),
            decreases wanted@.len() - i,
        {
            let handle: &str = wanted[i].as_str();
            proof {
                assert(all.take(i + 1).drop_last() =~= all.take(i as int));
                assert(all.take(i + 1).last() == handle@);
            }
            if !table::any_row(&self.items, &ItemIs { run_id, handle }) {
                push_item(&mut self.items, run_id, handle, depth, Some(source.clone()), now);
                added = added + 1;
            }
            i = i + 1;
        }
        proof {
            assert(all.take(i as int) =~= all);
            lemma_deeper(start, run_id, depth, source@, all, now@);
        }
        Ok(added)
    }
}

// ---------------------------------------------------------------------------
// The end of a run
// ---------------------------------------------------------------------------
/// How a run ended.
pub struct FrontierRunFinish<'a> {
    pub status: &'a str,
    pub processed: usize,
    pub succeeded: usize,
    pub failed: usize,
    pub skipped: usize,
    pub last_error: Option<&'a str>,
}

/// The state that a word for the end of a run stands for.
pub open spec fn end_of(word: Seq<char>) -> Option<RunStatus> {
    let w = text::trim(word);
    if w == "completed"@ {
        Some(RunStatus::Completed)
    } else if w == "stopped"@ {
        Some(RunStatus::Stopped)
    } else if w == "failed"@ {
        Some(RunStatus::Failed)
    } else {
        None
    }
}

fn parse_end(word: &str) -> (r: Option<RunStatus>)
    ensures
        r == end_of(word@),
{
    let trimmed: String = text::trim_of(word);
    let w: &str = trimmed.as_str();
    if text::same(w, "completed") {
        Some(RunStatus::Completed)
    } else if text::same(w, "stopped") {
        Some(RunStatus::Stopped)
    } else if text::same(w, "failed") {
        Some(RunStatus::Failed)
    } else {
        None
    }
}

/// An error as far as it is kept.
pub open spec fn kept_error(error: Option<Seq<char>>) -> Option<Seq<char>> {
    match error {
        Some(e) => Some(search::cut(e, KEPT_ERROR_CHARS as nat)),
        None => None,
    }
}

/// The run ended.
pub open spec fn ended(
    id: i64,
    status: RunStatus,
    finish: FrontierRunFinish<'_>,
    now: Seq<char>,
) -> spec_fn(RunView) -> RunView {
    |run: RunView|
        if run.id == id {
            RunView {
                status: status,
                finished_at: Some(now),
                processed: finish.processed,
                succeeded: finish.succeeded,
                failed: finish.failed,
                skipped: finish.skipped,
                last_error: kept_error(filters::opt_str(finish.last_error)),
                ..run
            }
        } else {
            run
        }
}

struct EndRun<'a> {
    id: i64,
    status: RunStatus,
    finish: &'a FrontierRunFinish<'a>,
    now: &'a str,
}

impl<'a> RowChange<RunRow> for EndRun<'a> {
    closed spec fn changed(&self) -> spec_fn(RunView) -> RunView {
        ended(self.id, self.status, *self.finish, self.now@)
    }

    fn apply(&self, row: &mut RunRow) {
        if row.id == self.id {
            row.status = self.status;
            row.finished_at = Some(self.now.to_string());
            row.processed = self.finish.processed;
            row.succeeded = self.finish.succeeded;
            row.failed = self.finish.failed;
            row.skipped = self.finish.skipped;
            row.last_error = match self.finish.last_error {
                Some(e) => Some(search::cut_to(e, KEPT_ERROR_CHARS)),
                None => None,
            };
        }
    }
}

impl Database {
    /// Notes how a run ended.
    pub fn finish_frontier_run(&mut self, run_id: i64, finish: &FrontierRunFinish<'_>, now: &str) -> (r:
        Result<(), DbError>)
        requires
            old(self)@.wf(),
        ensures
            final(self)@.wf(),
            match end_of(finish.status@) {
                None => r == Err::<(), DbError>(DbError::UnknownRunStatus) && final(self)@ == old(self)@,
                Some(status) => r == Ok::<(), DbError>(()) && final(self)@ == (DatabaseView {
                    runs: old(self)@.runs.map_values(ended(run_id, status, *finish, now@)),
                    ..old(self)@
                }),
            },
    {
        let ghost start = self@;
        let status: RunStatus = match parse_end(finish.status) {
            Some(status) => status,
            None => {
                return Err(DbError::UnknownRunStatus);
            },
        };
        table::update_rows(&mut self.runs, &EndRun { id: run_id, status, finish, now });
        proof {
            let change = ended(run_id, status, *finish, now@);
            table::lemma_distinct_map(start.runs, change, rows::run_key());
            assert forall|i: int| 0 <= i < start.items.len() implies rows::has_run(
                start.runs.map_values(change),
                (#[trigger] start.items[i]).run_id,
            ) by {
                assert(rows::has_run(start.runs, start.items[i].run_id));
                table::lemma_some_row_map(start.runs, change, rows::run_is(start.items[i].run_id));
            }
        }
        Ok(())
    }
}

// ---------------------------------------------------------------------------
// Laws
// ---------------------------------------------------------------------------
/// No item is tried more often than the limit; one that waits has tries left.
pub open spec fn item_attempts_bounded(items: Seq<ItemView>) -> bool {
    forall|i: int|
        0 <= i < items.len() ==> {
            let v = #[trigger] items[i];
            &&& v.attempts <= MAX_ATTEMPTS
            &&& queue::is_open(v.status) ==> v.attempts < MAX_ATTEMPTS
        }
}

/// The item that is taken belongs to the run and was waiting, and no waiting
/// item of the run is less deep.
pub proof fn law_frontier_goes_breadth_first(
    items: Seq<ItemView>,
    run_id: i64,
    clock: ClockView,
    other: ItemView,
)
    requires
        items_refreshed(items, run_id, clock).contains(other),
        other.run_id == run_id,
        queue::is_open(other.status),
    ensures
        next_item(items, run_id, clock) matches Some(v) && v.run_id == run_id && queue::is_open(
            v.status,
        ) && v.depth <= other.depth,
{
    let fresh = items_refreshed(items, run_id, clock);
    let p = open_item(run_id);
    let hits = fresh.filter(p);
    queue::lemma_chosen_members(fresh, p, item_order(), item_directions());
    let k = choose|k: int| 0 <= k < fresh.len() && fresh[k] == other;
    fresh.lemma_filter_contains(p, k);
    let m = choose|m: int| 0 <= m < hits.len() && hits[m] == other;
    let keys = hits.map_values(item_order());
    let down = item_directions();
    ranking::lemma_ranking(keys, down);
    let places = ranking::ranking(keys, down);
    assert(places.contains(m));
    let at = choose|at: int| 0 <= at < places.len() && places[at] == m;
    let waiting = items_waiting(items, run_id, clock);
    assert(waiting[0] == hits[places[0]]);
    let a = keys[places[0]];
    let b = keys[m];
    assert(places.contains(places[0]));
    assert(a == item_order()(waiting[0]));
    assert(b == item_order()(other));
    if at > 0 {
        assert(ranking::row_order(keys, down)(places[0], places[at]));
    }
    reveal_with_fuel(ranking::key_before, 2);
}

/// The item that was taken is worked on and no longer waits; every other item
/// is as it was before, but for items of the run whose worker did not come back.
pub proof fn law_frontier_claim_takes_one(
    db: DatabaseView,
    run_id: i64,
    clock: ClockView,
    i: int,
)
    requires
        db.wf(),
        0 <= i < db.items.len(),
    ensures
        ({
            let before = items_refreshed(db.items, run_id, clock)[i];
            let after = items_claimed(db.items, run_id, clock)[i];
            match next_item(db.items, run_id, clock) {
                Some(v) => if before.run_id == run_id && before.handle == v.handle {
                    before == v && after.status == JobStatus::Processing && after.attempts == (
                    v.attempts + 1) as u32 && after.locked_at == Some(clock.now)
                } else {
                    after == before
                },
                None => after == before,
            }
        }),
        !(db.items[i].run_id == run_id && queue::is_stale(
            db.items[i].status,
            db.items[i].locked_at,
            clock.stale_before,
        )) ==> items_refreshed(db.items, run_id, clock)[i] == db.items[i],
{
    let fresh = items_refreshed(db.items, run_id, clock);
    if let Some(v) = next_item(db.items, run_id, clock) {
        queue::lemma_chosen_members(fresh, open_item(run_id), item_order(), item_directions());
        let waiting = items_waiting(db.items, run_id, clock);
        assert(fresh.contains(waiting[0]));
        let k = choose|k: int| 0 <= k < fresh.len() && fresh[k] == waiting[0];
        assert(open_item(run_id)(waiting[0]));
        table::lemma_distinct_map(
            db.items,
            item_reclaimed(run_id, clock.stale_before),
            rows::item_key(),
        );
        let key = rows::item_key();
        if fresh[i].run_id == run_id && fresh[i].handle == v.handle {
            if i < k {
                assert(key(fresh[i]) != key(fresh[k]));
            }
            if k < i {
                assert(key(fresh[k]) != key(fresh[i]));
            }
        }
    }
}

/// An item that is taken has tries left; taking items, noting what became of
/// them and going deeper keeps the number of tries bounded.
pub proof fn law_frontier_attempts_bounded(
    db: DatabaseView,
    run_id: i64,
    clock: ClockView,
    handle: Seq<char>,
    t: Seq<char>,
    depth: u8,
    accounts: Seq<Seq<char>>,
)
    requires
        db.wf(),
        item_attempts_bounded(db.items),
    ensures
        next_item(db.items, run_id, clock) matches Some(v) ==> v.attempts < MAX_ATTEMPTS,
        item_attempts_bounded(items_claimed(db.items, run_id, clock)),
        item_attempts_bounded(db.items.map_values(item_finished(run_id, handle, t))),
        item_attempts_bounded(db.items.map_values(item_unsuccessful(run_id, handle, t))),
        item_attempts_bounded(with_deeper(db.items, run_id, depth, handle, accounts, t)),
        item_attempts_bounded(started(db, depth, t).items),
    decreases accounts.len(),
{
    let fresh = items_refreshed(db.items, run_id, clock);
    let after = items_claimed(db.items, run_id, clock);
    assert forall|i: int| 0 <= i < after.len() implies {
        let v = #[trigger] after[i];
        &&& v.attempts <= MAX_ATTEMPTS
        &&& queue::is_open(v.status) ==> v.attempts < MAX_ATTEMPTS
    } by {
        law_frontier_claim_takes_one(db, run_id, clock, i);
        assert(db.items[i].attempts <= MAX_ATTEMPTS);
        assert(fresh[i] == item_reclaimed(run_id, clock.stale_before)(db.items[i]));
        if let Some(v) = next_item(db.items, run_id, clock) {
            queue::lemma_chosen_members(fresh, open_item(run_id), item_order(), item_directions());
            assert(open_item(run_id)(items_waiting(db.items, run_id, clock)[0]));
        }
    }
    if next_item(db.items, run_id, clock) is Some {
        queue::lemma_chosen_members(fresh, open_item(run_id), item_order(), item_directions());
        let first = items_waiting(db.items, run_id, clock)[0];
        assert(fresh.contains(first) && open_item(run_id)(first));
        let k = choose|k: int| 0 <= k < fresh.len() && fresh[k] == first;
        assert(fresh[k] == item_reclaimed(run_id, clock.stale_before)(db.items[k]));
    }
    if accounts.len() > 0 {
        law_frontier_attempts_bounded(
            db,
            run_id,
            clock,
            handle,
            t,
            depth,
            accounts.drop_last(),
        );
    }
}

/// Going deeper changes no item that is in the run, and adds at the given depth
/// only, found at the given creator, and only accounts that are given.
pub proof fn law_deeper_adds_only(
    items: Seq<ItemView>,
    run_id: i64,
    depth: u8,
    source: Seq<char>,
    accounts: Seq<Seq<char>>,
    now: Seq<char>,
)
    ensures
        ({
            let all = with_deeper(items, run_id, depth, source, accounts, now);
            &&& all.len() >= items.len()
            &&& all.take(items.len() as int) == items
            &&& forall|i: int|
                items.len() <= i < all.len() ==> {
                    let v = #[trigger] all[i];
                    &&& v == new_item(run_id, v.handle, depth, Some(source), now)
                    &&& accounts.contains(v.handle)
                }
            &&& forall|h: Seq<char>|
                #[trigger] accounts.contains(h) ==> table::some_row(all, rows::item_is(run_id, h))
        }),
    decreases accounts.len(),
{
    let all = with_deeper(items, run_id, depth, source, accounts, now);
    if accounts.len() == 0 {
        assert(all.take(items.len() as int) =~= items);
    } else {
        let before = accounts.drop_last();
        let last = accounts.last();
        law_deeper_adds_only(items, run_id, depth, source, before, now);
        let rest = with_deeper(items, run_id, depth, source, before, now);
        assert(all.take(items.len() as int) =~= rest.take(items.len() as int));
        assert forall|i: int| items.len() <= i < all.len() implies {
            let v = #[trigger] all[i];
            &&& v == new_item(run_id, v.handle, depth, Some(source), now)
            &&& accounts.contains(v.handle)
        } by {
            if i < rest.len() {
                assert(all[i] == rest[i]);
                assert(before.contains(rest[i].handle));
                let k = choose|k: int| 0 <= k < before.len() && before[k] == rest[i].handle;
                assert(accounts[k] == before[k]);
            } else {
                assert(accounts[accounts.len() - 1] == last);
            }
        }
        assert forall|h: Seq<char>| #[trigger] accounts.contains(h) implies table::some_row(
            all,
            rows::item_is(run_id, h),
        ) by {
            let row = new_item(run_id, last, depth, Some(source), now);
            table::lemma_some_row_push(rest, row, rows::item_is(run_id, h));
            if h != last {
                let k = choose|k: int| 0 <= k < accounts.len() && accounts[k] == h;
                assert(before[k] == h);
                assert(before.contains(h));
            }
        }
    }
}

/// A run that starts is the latest, and its items are the seeds at depth zero,
/// all of them waiting.
pub proof fn law_run_starts_with_the_seeds(db: DatabaseView, depth_limit: u8, now: Seq<char>)
    requires
        db.wf(),
        greatest_id(db.runs) < i64::MAX,
    ensures
        ({
            let after = started(db, depth_limit, now);
            let id = next_id(db.runs);
            &&& after.wf()
            &&& !rows::has_run(db.runs, id)
            &&& latest(after.runs) == Some(new_run(id, db.bucket.len(), depth_limit, now))
            &&& after.items.take(db.items.len() as int) == db.items
            &&& forall|i: int|
                db.items.len() <= i < after.items.len() ==> (#[trigger] after.items[i])
                    == new_item(id, db.bucket[i - db.items.len()].handle, 0, None, now)
            &&& after.items.len() == db.items.len() + db.bucket.len()
        }),
{
    let after = started(db, depth_limit, now);
    let id = next_id(db.runs);
    let run = new_run(id, db.bucket.len(), depth_limit, now);
    lemma_started(db, depth_limit, now);
    lemma_greatest_id(db.runs);
    assert(after.items.take(db.items.len() as int) =~= db.items);
    if rows::has_run(db.runs, id) {
        let k = choose|k: int| 0 <= k < db.runs.len() && rows::run_is(id)(#[trigger] db.runs[k]);
        assert(db.runs[k].id <= greatest_id(db.runs));
    }
    let p = table::always::<RunView>();
    let hits = after.runs.filter(p);
    let n = db.runs.len() as int;
    after.runs.lemma_filter_contains(p, n);
    queue::lemma_chosen_members(after.runs, p, run_order(), seq![true]);
    let m = choose|m: int| 0 <= m < hits.len() && hits[m] == after.runs[n];
    let keys = hits.map_values(run_order());
    let down = seq![true];
    ranking::lemma_ranking(keys, down);
    let places = ranking::ranking(keys, down);
    assert(places.contains(m));
    let at = choose|at: int| 0 <= at < places.len() && places[at] == m;
    let all = table::chosen(after.runs, p, run_order(), down);
    assert(all[0] == hits[places[0]]);
    assert(after.runs.contains(all[0]));
    let k = choose|k: int| 0 <= k < after.runs.len() && after.runs[k] == all[0];
    let a = keys[places[0]];
    let b = keys[m];
    assert(places.contains(places[0]));
    assert(a == run_order()(all[0]));
    assert(b == run_order()(run));
    if at > 0 {
        assert(ranking::row_order(keys, down)(places[0], places[at]));
    }
    reveal_with_fuel(ranking::key_before, 2);
    if k < n {
        assert(after.runs[k] == db.runs[k]);
        assert(db.runs[k].id <= greatest_id(db.runs));
    }
}

} // verus!
