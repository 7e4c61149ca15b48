//! The queue of creators that are to be crawled.

use vstd::prelude::*;
use crate::db::apps;
use crate::db::filters;
use crate::db::filters::DbError;
use crate::db::joins;
use crate::db::joins::{JoinedJob, JoinedView};
use crate::db::rows;
use crate::db::rows::{
    AppPolicy, CreatorIs, CreatorRow, CreatorView, Database, DatabaseView, JobIs, JobStatus,
    QueueRow, QueueView,
};
use crate::db::table;
use crate::db::table::{RowChange, RowKey, RowTest};
use crate::handles;
use crate::models;
use crate::models::QueueJob;
use crate::moment::{Clock, ClockView};
use crate::order;
use crate::ranking;
use crate::ranking::{SortValue, SortView};
use crate::search;
use crate::text;

verus! {

/// How often a job is tried before it fails for good.
pub const MAX_ATTEMPTS: u32 = 3;

/// How much of an error is kept with a job.
pub const KEPT_ERROR_CHARS: usize = 1500;

/// What is noted of a job whose worker did not come back.
pub const STALE_NOTE: &'static str = "stale processing lock reclaimed";

// ---------------------------------------------------------------------------
// Putting jobs in
// ---------------------------------------------------------------------------
/// A job that nobody has worked on.
pub open spec fn new_job(
    handle: Seq<char>,
    discovered_from: Option<Seq<char>>,
    expected_app_name: Option<Seq<char>>,
    found_at: Seq<char>,
    manual_priority: bool,
) -> QueueView {
    QueueView {
        handle: handle,
        discovered_from: discovered_from,
        expected_app_name: expected_app_name,
        found_at: found_at,
        status: JobStatus::Pending,
        attempts: 0,
        manual_priority: manual_priority,
        locked_at: None,
        scraped_at: None,
        last_error: None,
    }
}

/// Puts a job that nobody has worked on at the end of the queue.
pub fn push_job(
    queue: &mut Vec<QueueRow>,
    handle: &str,
    discovered_from: Option<String>,
    expected_app_name: Option<String>,
    found_at: &str,
    manual_priority: bool,
)
    ensures
        table::views(final(queue)@) == table::views(old(queue)@).push(
            new_job(
                handle@,
                models::opt_text(discovered_from),
                models::opt_text(expected_app_name),
                found_at@,
                manual_priority,
            ),
        ),
{
    let ghost before = queue@;
    let row: QueueRow = QueueRow {
        handle: handle.to_string(),
        discovered_from,
        expected_app_name,
        found_at: found_at.to_string(),
        status: JobStatus::Pending,
        attempts: 0,
        manual_priority,
        locked_at: None,
        scraped_at: None,
        last_error: None,
    };
    queue.push(row);
    assert(table::views(queue@) =~= table::views(before).push(row@));
}

/// The job with the handle is expected to promote the app, where one is given.
pub open spec fn expecting(handle: Seq<char>, app: Option<Seq<char>>) -> spec_fn(
    QueueView,
) -> QueueView {
    |q: QueueView|
        if q.handle == handle {
            QueueView { expected_app_name: joins::or_else(app, q.expected_app_name), ..q }
        } else {
            q
        }
}

struct Expect<'a> {
    handle: &'a str,
    app: &'a Option<String>,
}

impl<'a> RowChange<QueueRow> for Expect<'a> {
    closed spec fn changed(&self) -> spec_fn(QueueView) -> QueueView {
        expecting(self.handle@, models::opt_text(*self.app))
    }

    fn apply(&self, row: &mut QueueRow) {
        if text::same(row.handle.as_str(), self.handle) {
            row.expected_app_name = joins::first_text(self.app, &row.expected_app_name);
        }
    }
}

/// The database after a job was put in: a creator that is known is not crawled
/// again, and a job that is there only learns which app to expect.
pub open spec fn enqueued(
    db: DatabaseView,
    handle: Seq<char>,
    discovered_from: Option<Seq<char>>,
    app: Option<Seq<char>>,
    now: Seq<char>,
) -> DatabaseView {
    DatabaseView {
        apps: match app {
            Some(name) => apps::with_app_seen(db.apps, name, now),
            None => db.apps,
        },
        queue: if rows::has_creator(db.creators, handle) {
            db.queue
        } else if rows::in_queue(db.queue, handle) {
            db.queue.map_values(expecting(handle, app))
        } else {
            db.queue.push(new_job(handle, discovered_from, app, now, false))
        },
        ..db
    }
}

/// Whether a row is done with, in one of the ways that a job is put in first.
pub open spec fn is_open(status: JobStatus) -> bool {
    status == JobStatus::Pending || status == JobStatus::Retry
}

/// The job with the handle is put first, unless somebody works on it or it is
/// done.
pub open spec fn put_first(handle: Seq<char>) -> spec_fn(QueueView) -> QueueView {
    |q: QueueView|
        if q.handle == handle && q.status != JobStatus::Processing && q.status
            != JobStatus::Done {
            QueueView {
                manual_priority: true,
                status: JobStatus::Pending,
                attempts: if q.status == JobStatus::Failed {
                    0
                } else {
                    q.attempts
                },
                locked_at: None,
                last_error: None,
                ..q
            }
        } else {
            q
        }
}

struct PutFirst<'a> {
    handle: &'a str,
}

impl<'a> RowChange<QueueRow> for PutFirst<'a> {
    closed spec fn changed(&self) -> spec_fn(QueueView) -> QueueView {
        put_first(self.handle@)
    }

    fn apply(&self, row: &mut QueueRow) {
        let listed: bool = match row.status {
            JobStatus::Processing | JobStatus::Done => false,
            _ => true,
        };
        if listed && text::same(row.handle.as_str(), self.handle) {
            if let JobStatus::Failed = row.status {
                row.attempts = 0;
            }
            row.manual_priority = true;
            row.status = JobStatus::Pending;
            row.locked_at = None;
            row.last_error = None;
        }
    }
}

/// Whether putting the handle first adds a job.
pub open spec fn adds_job(
    creators: Seq<CreatorView>,
    queue: Seq<QueueView>,
    handle: Seq<char>,
) -> bool {
    !rows::has_creator(creators, handle) && !rows::in_queue(queue, handle)
}

/// The queue after one handle was put first.
pub open spec fn with_first(
    creators: Seq<CreatorView>,
    queue: Seq<QueueView>,
    handle: Seq<char>,
    now: Seq<char>,
) -> Seq<QueueView> {
    let full = if adds_job(creators, queue, handle) {
        queue.push(new_job(handle, None, None, now, true))
    } else {
        queue
    };
    full.map_values(put_first(handle))
}

/// The queue after all handles were put first.
pub open spec fn with_all_first(
    creators: Seq<CreatorView>,
    queue: Seq<QueueView>,
    wanted: Seq<Seq<char>>,
    now: Seq<char>,
) -> Seq<QueueView>
    decreases wanted.len(),
{
    if wanted.len() == 0 {
        queue
    } else {
        with_first(
            creators,
            with_all_first(creators, queue, wanted.drop_last(), now),
            wanted.last(),
            now,
        )
    }
}

/// How many jobs putting all handles first adds.
pub open spec fn jobs_added(
    creators: Seq<CreatorView>,
    queue: Seq<QueueView>,
    wanted: Seq<Seq<char>>,
    now: Seq<char>,
) -> nat
    decreases wanted.len(),
{
    if wanted.len() == 0 {
        0
    } else {
        let rest = wanted.drop_last();
        jobs_added(creators, queue, rest, now) + if adds_job(
            creators,
            with_all_first(creators, queue, rest, now),
            wanted.last(),
        ) {
            1nat
        } else {
            0
        }
    }
}

impl Database {
    /// Puts a seed into the queue. Returns whether the creator has a job now: one
    /// that is known gets none.
    pub fn seed_handle(&mut self, handle: &str, discovered_from: Option<&str>, now: &str) -> (r:
        Result<bool, DbError>)
        requires
            old(self)@.wf(),
        ensures
            final(self)@.wf(),
            match handles::normalized_handle(handle@) {
                None => r == Err::<bool, DbError>(DbError::InvalidHandle) && final(self)@ == old(self)@,
                Some(h) => r == Ok::<bool, DbError>(!rows::has_creator(old(self)@.creators, h))
                    && final(self)@ == enqueued(
                    old(self)@,
                    h,
                    filters::handle_opt(filters::opt_str(discovered_from)),
                    None,
                    now@,
                ),
            },
    {
        self.enqueue_handle_with_app(handle, discovered_from, None, now)
    }

    /// Puts a job into the queue. Returns whether the creator has a job now: one
    /// that is known gets none.
    pub fn enqueue_handle(&mut self, handle: &str, discovered_from: Option<&str>, now: &str) -> (r:
        Result<bool, DbError>)
        requires
            old(self)@.wf(),
        ensures
            final(self)@.wf(),
            match handles::normalized_handle(handle@) {
                None => r == Err::<bool, DbError>(DbError::InvalidHandle) && final(self)@ == old(self)@,
                Some(h) => r == Ok::<bool, DbError>(!rows::has_creator(old(self)@.creators, h))
                    && final(self)@ == enqueued(
                    old(self)@,
                    h,
                    filters::handle_opt(filters::opt_str(discovered_from)),
                    None,
                    now@,
                ),
            },
    {
        self.enqueue_handle_with_app(handle, discovered_from, None, now)
    }

    /// Puts a job for a creator who is expected to promote an app into the
    /// queue. Returns whether the creator has a job now: one that is known gets
    /// none.
    pub fn enqueue_handle_with_app(
        &mut self,
        handle: &str,
        discovered_from: Option<&str>,
        expected_app_name: Option<&str>,
        now: &str,
    ) -> (r: Result<bool, DbError>)
        requires
            old(self)@.wf(),
        ensures
            final(self)@.wf(),
            match handles::normalized_handle(handle@) {
                None => r == Err::<bool, DbError>(DbError::InvalidHandle) && final(self)@ == old(self)@,
                Some(h) => r == Ok::<bool, DbError>(!rows::has_creator(old(self)@.creators, h))
                    && final(self)@ == enqueued(
                    old(self)@,
                    h,
                    filters::handle_opt(filters::opt_str(discovered_from)),
                    models::non_blank(filters::opt_str(expected_app_name)),
                    now@,
                ),
            },
    {
        let ghost start = self@;
        let handle: String = match handles::normalize_handle(handle) {
            Some(handle) => handle,
            None => {
                return Err(DbError::InvalidHandle);
            },
        };
        let from: Option<String> = filters::normalize_opt(discovered_from);
        let app: Option<String> = filters::trimmed_str(expected_app_name);
        if let Some(name) = &app {
            apps::see_app(&mut self.apps, name.as_str(), now);
        }
        proof {
            lemma_enqueued(
                start,
                handle@,
                models::opt_text(from),
                models::opt_text(app),
                now@,
            );
        }
        if table::any_row(&self.creators, &CreatorIs { handle: handle.as_str() }) {
            return Ok(false);
        }
        if table::any_row(&self.queue, &JobIs { handle: handle.as_str() }) {
            table::update_rows(&mut self.queue, &Expect { handle: handle.as_str(), app: &app });
        } else {
            push_job(&mut self.queue, handle.as_str(), from, app, now, false);
        }
        Ok(true)
    }

    /// Puts the given creators first. Returns how many jobs were added.
    pub fn prioritize_handles(&mut self, wanted: &Vec<String>, now: &str) -> (r: usize)
        requires
            old(self)@.wf(),
        ensures
            final(self)@.wf(),
            final(self)@ == (DatabaseView {
                queue: with_all_first(
                    old(self)@.creators,
                    old(self)@.queue,
                    handles::normalized_handles(search::texts(wanted@)),
                    now@,
                ),
                ..old(self)@
            }),
            r == jobs_added(
                old(self)@.creators,
                old(self)@.queue,
                handles::normalized_handles(search::texts(wanted@)),
                now@,
            ),
    {
        let ghost start = self@;
        let list: Vec<String> = handles::normalize_many(wanted);
        let ghost all = search::texts(list@);
        let mut added: usize = 0;
        let mut i: usize = 0;
        assert(all.take(0) =~= Seq::<Seq<char>>::empty());
        while i < list.len()
            invariant
                i <= list@.len(),
                added <= i,
                all == search::texts(list@),
                self@ == (DatabaseView {
                    queue: with_all_first(start.creators, start.queue, all.take(i as int), now@),
                    ..start
                }),
                added == jobs_added(start.creators, start.queue, all.take(i as int), now@),
                self@.wf(),
            decreases list@.len() - i,
        {
            let handle: &str = list[i].as_str();
            proof {
                assert(all.take(i + 1).drop_last() =~= all.take(i as int));
                assert(all.take(i + 1).last() == handle@);
                lemma_with_first(self@.creators, self@.queue, handle@, now@);
            }
            let known: bool = table::any_row(&self.creators, &CreatorIs { handle });
            let queued: bool = table::any_row(&self.queue, &JobIs { handle });
            if !known && !queued {
                push_job(&mut self.queue, handle, None, None, now, true);
                added = added + 1;
            }
            table::update_rows(&mut self.queue, &PutFirst { handle });
            i = i + 1;
        }
        assert(all.take(i as int) =~= all);
        added
    }

    /// Whether the creator has been crawled.
    pub fn is_scraped(&self, handle: &str) -> (r: Result<bool, DbError>)
        ensures
            r == match handles::normalized_handle(handle@) {
                None => Err::<bool, DbError>(DbError::InvalidHandle),
                Some(h) => Ok::<bool, DbError>(rows::has_creator(self@.creators, h)),
            },
    {
        match handles::normalize_handle(handle) {
            None => Err(DbError::InvalidHandle),
            Some(h) => Ok(table::any_row(&self.creators, &CreatorIs { handle: h.as_str() })),
        }
    }
}

pub proof fn lemma_push_new_job(queue: Seq<QueueView>, job: QueueView)
    requires
        table::distinct_by(queue, rows::job_key()),
        !rows::in_queue(queue, job.handle),
    ensures
        table::distinct_by(queue.push(job), rows::job_key()),
{
    let key = rows::job_key();
    assert forall|i: int| 0 <= i < queue.len() implies key(#[trigger] queue[i]) != key(job) by {
        if queue[i].handle == job.handle {
            assert(rows::job_is(job.handle)(queue[i]));
        }
    }
    table::lemma_distinct_push(queue, job, key);
}

/// A queue with distinct handles in place of the queue keeps a database valid.
pub proof fn lemma_queue_only(db: DatabaseView, queue: Seq<QueueView>)
    requires
        db.wf(),
        table::distinct_by(queue, rows::job_key()),
    ensures
        (DatabaseView { queue: queue, ..db }).wf(),
{
}

/// More apps keep a database valid.
pub proof fn lemma_apps_only(db: DatabaseView, apps: Seq<rows::AppView>)
    requires
        db.wf(),
        table::distinct_by(apps, rows::app_key()),
        forall|n: Seq<char>| #[trigger] rows::has_app(db.apps, n) ==> rows::has_app(apps, n),
    ensures
        (DatabaseView { apps: apps, ..db }).wf(),
{
}

proof fn lemma_enqueued(
    db: DatabaseView,
    handle: Seq<char>,
    from: Option<Seq<char>>,
    app: Option<Seq<char>>,
    now: Seq<char>,
)
    requires
        db.wf(),
    ensures
        enqueued(db, handle, from, app, now).wf(),
{
    let next = enqueued(db, handle, from, app, now);
    if let Some(name) = app {
        apps::lemma_with_app_seen(db.apps, name, now);
        lemma_apps_only(db, next.apps);
    }
    if !rows::has_creator(db.creators, handle) {
        if rows::in_queue(db.queue, handle) {
            table::lemma_distinct_map(db.queue, expecting(handle, app), rows::job_key());
        } else {
            lemma_push_new_job(db.queue, new_job(handle, from, app, now, false));
        }
    }
}

proof fn lemma_with_first(
    creators: Seq<CreatorView>,
    queue: Seq<QueueView>,
    handle: Seq<char>,
    now: Seq<char>,
)
    requires
        table::distinct_by(queue, rows::job_key()),
    ensures
        table::distinct_by(with_first(creators, queue, handle, now), rows::job_key()),
{
    if adds_job(creators, queue, handle) {
        let job = new_job(handle, None, None, now, true);
        lemma_push_new_job(queue, job);
        table::lemma_distinct_map(queue.push(job), put_first(handle), rows::job_key());
    } else {
        table::lemma_distinct_map(queue, put_first(handle), rows::job_key());
    }
}

// ---------------------------------------------------------------------------
// Taking jobs out
// ---------------------------------------------------------------------------
/// Jobs of creators that are known are done.
pub open spec fn reconciled(creators: Seq<CreatorView>, now: Seq<char>) -> spec_fn(
    QueueView,
) -> QueueView {
    |q: QueueView|
        if q.status != JobStatus::Done && rows::has_creator(creators, q.handle) {
            QueueView {
                status: JobStatus::Done,
                scraped_at: joins::or_else(q.scraped_at, Some(now)),
                locked_at: None,
                ..q
            }
        } else {
            q
        }
}

/// The worker took the job too long ago.
pub open spec fn is_stale(
    status: JobStatus,
    locked_at: Option<Seq<char>>,
    stale_before: Seq<char>,
) -> bool {
    &&& status == JobStatus::Processing
    &&& locked_at matches Some(at)
    &&& order::before(at, stale_before)
}

/// What becomes of a job that did not succeed: it is tried again, unless it was
/// tried often enough.
pub open spec fn after_failure(attempts: u32) -> JobStatus {
    if attempts >= MAX_ATTEMPTS {
        JobStatus::Failed
    } else {
        JobStatus::Retry
    }
}

/// Jobs whose worker did not come back are tried again.
pub open spec fn reclaimed(stale_before: Seq<char>) -> spec_fn(QueueView) -> QueueView {
    |q: QueueView|
        if is_stale(q.status, q.locked_at, stale_before) {
            QueueView {
                status: after_failure(q.attempts),
                locked_at: None,
                last_error: joins::or_else(q.last_error, Some(STALE_NOTE@)),
                ..q
            }
        } else {
            q
        }
}

struct Reconcile<'a> {
    creators: &'a Vec<CreatorRow>,
    now: &'a str,
}

impl<'a> RowChange<QueueRow> for Reconcile<'a> {
    closed spec fn changed(&self) -> spec_fn(QueueView) -> QueueView {
        reconciled(table::views(self.creators@), self.now@)
    }

    fn apply(&self, row: &mut QueueRow) {
        let done: bool = match row.status {
            JobStatus::Done => true,
            _ => false,
        };
        if !done && table::any_row(self.creators, &CreatorIs { handle: row.handle.as_str() }) {
            row.status = JobStatus::Done;
            if row.scraped_at.is_none() {
                row.scraped_at = Some(self.now.to_string());
            }
            row.locked_at = None;
        }
    }
}

/// Whether the worker took the job too long ago.
pub fn stale(status: JobStatus, locked_at: &Option<String>, stale_before: &str) -> (r: bool)
    ensures
        r == is_stale(status, models::opt_text(*locked_at), stale_before@),
{
    match (status, locked_at) {
        (JobStatus::Processing, Some(at)) => order::comes_before(at.as_str(), stale_before),
        _ => false,
    }
}

/// What becomes of a job that did not succeed.
pub fn status_after_failure(attempts: u32) -> (r: JobStatus)
    ensures
        r == after_failure(attempts),
{
    if attempts >= MAX_ATTEMPTS {
        JobStatus::Failed
    } else {
        JobStatus::Retry
    }
}

struct Reclaim<'a> {
    stale_before: &'a str,
}

impl<'a> RowChange<QueueRow> for Reclaim<'a> {
    closed spec fn changed(&self) -> spec_fn(QueueView) -> QueueView {
        reclaimed(self.stale_before@)
    }

    fn apply(&self, row: &mut QueueRow) {
        if stale(row.status, &row.locked_at, self.stale_before) {
            row.status = status_after_failure(row.attempts);
            row.locked_at = None;
            if row.last_error.is_none() {
                row.last_error = Some(STALE_NOTE.to_string());
            }
        }
    }
}

/// The queue before a job is taken out of it.
pub open spec fn refreshed(db: DatabaseView, clock: ClockView) -> Seq<QueueView> {
    db.queue.map_values(reconciled(db.creators, clock.now)).map_values(
        reclaimed(clock.stale_before),
    )
}

/// Which jobs may be taken.
pub struct QueueClaimFilters {
    pub language_code: Option<String>,
    pub app_name: Option<String>,
    pub app_names: Vec<String>,
    pub country_codes: Vec<String>,
    pub handles: Vec<String>,
    pub whitelist_only: bool,
}

/// The mathematical reading of `QueueClaimFilters`, in normal form.
pub struct ClaimView {
    pub language: Option<Seq<char>>,
    pub app: Option<Seq<char>>,
    pub apps: Seq<Seq<char>>,
    pub countries: Seq<Seq<char>>,
    pub handles: Seq<Seq<char>>,
    pub whitelist_only: bool,
}

impl View for QueueClaimFilters {
    type V = ClaimView;

    open spec fn view(&self) -> ClaimView {
        ClaimView {
            language: filters::language_filter(models::opt_text(self.language_code)),
            app: filters::app_filter(models::opt_text(self.app_name)),
            apps: filters::filter_values(search::texts(self.app_names@)),
            countries: filters::upper_values(search::texts(self.country_codes@)),
            handles: handles::normalized_handles(search::texts(self.handles@)),
            whitelist_only: self.whitelist_only,
        }
    }
}

impl Default for QueueClaimFilters {
    /// Every job may be taken.
    fn default() -> (r: QueueClaimFilters)
        ensures
            r.language_code is None,
            r.app_name is None,
            r.app_names@.len() == 0,
            r.country_codes@.len() == 0,
            r.handles@.len() == 0,
            !r.whitelist_only,
    {
        QueueClaimFilters {
            language_code: None,
            app_name: None,
            app_names: Vec::new(),
            country_codes: Vec::new(),
            handles: Vec::new(),
            whitelist_only: false,
        }
    }
}

/// The job may be taken.
pub open spec fn may_claim(f: ClaimView, j: JoinedView) -> bool {
    &&& is_open(j.row.status)
    &&& f.handles.len() == 0 ==> j.policy != Some(AppPolicy::Blacklist)
    &&& f.language matches Some(l) ==> text::upper(joins::or_blank(j.language)) == l
    &&& f.app matches Some(a) ==> text::same_ignoring_case(joins::or_blank(j.app), a)
    &&& f.apps.len() > 0 ==> filters::has_ignoring_case(f.apps, joins::or_blank(j.app))
    &&& f.countries.len() > 0 ==> f.countries.contains(text::upper(joins::or_blank(j.country)))
    &&& f.handles.len() > 0 ==> f.handles.contains(j.row.handle)
    &&& f.whitelist_only && f.apps.len() == 0 ==> j.policy == Some(AppPolicy::Whitelist)
}

pub open spec fn claimable(f: ClaimView) -> spec_fn(JoinedView) -> bool {
    |j: JoinedView| may_claim(f, j)
}

/// The order in which jobs are taken: those put first by hand, those for apps
/// on the white list, and the oldest.
pub open spec fn turn_key() -> spec_fn(JoinedView) -> Seq<SortView> {
    |j: JoinedView|
        seq![
            SortView::Number(
                if j.row.manual_priority {
                    1
                } else {
                    0
                },
            ),
            SortView::Number(
                if j.policy == Some(AppPolicy::Whitelist) {
                    0
                } else {
                    1
                },
            ),
            SortView::Text(j.row.found_at),
        ]
}

pub open spec fn turn_directions() -> Seq<bool> {
    seq![true, false, false]
}

/// The order in which jobs are taken.
pub struct Turn {}

impl<'a> RowKey<JoinedJob<'a>> for Turn {
    open spec fn key(&self) -> spec_fn(JoinedView) -> Seq<SortView> {
        turn_key()
    }

    open spec fn directions(&self) -> Seq<bool> {
        turn_directions()
    }

    fn key_of(&self, row: &JoinedJob<'a>) -> (r: Vec<SortValue>) {
        let whitelisted: bool = match row.policy {
            Some(AppPolicy::Whitelist) => true,
            _ => false,
        };
        let manual: i128 = if row.row.manual_priority {
            1
        } else {
            0
        };
        let turn: i128 = if whitelisted {
            0
        } else {
            1
        };
        let r: Vec<SortValue> = vec![
            SortValue::Number(manual),
            SortValue::Number(turn),
            SortValue::Text(row.row.found_at.clone()),
        ];
        assert(ranking::key_view(r@) =~= turn_key()(row@));
        r
    }

    fn descending(&self) -> (r: Vec<bool>) {
        let r: Vec<bool> = vec![true, false, false];
        assert(r@ =~= turn_directions());
        r
    }
}

struct Claimable {
    language: Option<String>,
    app: Option<String>,
    apps: Vec<String>,
    countries: Vec<String>,
    handles: Vec<String>,
    whitelist_only: bool,
}

impl Claimable {
    spec fn filters(&self) -> ClaimView {
        ClaimView {
            language: models::opt_text(self.language),
            app: models::opt_text(self.app),
            apps: search::texts(self.apps@),
            countries: search::texts(self.countries@),
            handles: search::texts(self.handles@),
            whitelist_only: self.whitelist_only,
        }
    }
}

/// The text, or the empty text.
pub fn blank_if_none(t: &Option<String>) -> (r: String)
    ensures
        r@ == joins::or_blank(models::opt_text(*t)),
{
    match t {
        Some(t) => t.clone(),
        None => {
            let r = String::new();
            assert(r@ =~= Seq::<char>::empty());
            r
        },
    }
}

impl<'a> RowTest<JoinedJob<'a>> for Claimable {
    closed spec fn wanted(&self) -> spec_fn(JoinedView) -> bool {
        claimable(self.filters())
    }

    fn test(&self, row: &JoinedJob<'a>) -> (r: bool) {
        let open: bool = match row.row.status {
            JobStatus::Pending | JobStatus::Retry => true,
            _ => false,
        };
        if !open {
            return false;
        }
        if self.handles.len() == 0 {
            if let Some(AppPolicy::Blacklist) = row.policy {
                return false;
            }
        }
        let app: String = blank_if_none(&row.app);
        if let Some(l) = &self.language {
            let language: String = blank_if_none(&row.language);
            let upper: String = text::to_upper(language.as_str());
            if !text::same(upper.as_str(), l.as_str()) {
                return false;
            }
        }
        if let Some(a) = &self.app {
            if !text::eq_ignoring_case(app.as_str(), a.as_str()) {
                return false;
            }
        }
        if self.apps.len() > 0 && !filters::contains_ignoring_case(&self.apps, app.as_str()) {
            return false;
        }
        if self.countries.len() > 0 {
            let country: String = blank_if_none(&row.country);
            let upper: String = text::to_upper(country.as_str());
            if !filters::contains_text(&self.countries, upper.as_str()) {
                return false;
            }
        }
        if self.handles.len() > 0 && !filters::contains_text(
            &self.handles,
            row.row.handle.as_str(),
        ) {
            return false;
        }
        if self.whitelist_only && self.apps.len() == 0 {
            if let Some(AppPolicy::Whitelist) = row.policy {
                true
            } else {
                false
            }
        } else {
            true
        }
    }
}

fn as_str_opt(o: &Option<String>) -> (r: Option<&str>)
    ensures
        filters::opt_str(r) == models::opt_text(*o),
{
    match o {
        Some(s) => Some(s.as_str()),
        None => None,
    }
}

/// The jobs that may be taken, the one whose turn it is first.
pub open spec fn claim_order(db: DatabaseView, f: ClaimView, clock: ClockView) -> Seq<JoinedView> {
    table::chosen(
        joins::joined(db.apps, db.creators, refreshed(db, clock)),
        claimable(f),
        turn_key(),
        turn_directions(),
    )
}

/// The job that is taken, if there is one.
pub open spec fn next_job(db: DatabaseView, f: ClaimView, clock: ClockView) -> Option<QueueView> {
    if claim_order(db, f, clock).len() > 0 {
        Some(claim_order(db, f, clock)[0].row)
    } else {
        None
    }
}

/// A worker takes the job with the handle.
pub open spec fn taken(handle: Seq<char>, now: Seq<char>) -> spec_fn(QueueView) -> QueueView {
    |q: QueueView|
        if q.handle == handle {
            QueueView {
                status: JobStatus::Processing,
                attempts: (q.attempts + 1) as u32,
                locked_at: Some(now),
                last_error: None,
                ..q
            }
        } else {
            q
        }
}

/// The database after a job was taken.
pub open spec fn claimed(db: DatabaseView, f: ClaimView, clock: ClockView) -> DatabaseView {
    DatabaseView {
        queue: match next_job(db, f, clock) {
            Some(job) => refreshed(db, clock).map_values(taken(job.handle, clock.now)),
            None => refreshed(db, clock),
        },
        ..db
    }
}

struct Take<'a> {
    handle: &'a str,
    attempts: u32,
    now: &'a str,
}

/// The job with the handle gets the given number of attempts.
pub open spec fn taken_with(handle: Seq<char>, attempts: u32, now: Seq<char>) -> spec_fn(
    QueueView,
) -> QueueView {
    |q: QueueView|
        if q.handle == handle {
            QueueView {
                status: JobStatus::Processing,
                attempts: attempts,
                locked_at: Some(now),
                last_error: None,
                ..q
            }
        } else {
            q
        }
}

impl<'a> RowChange<QueueRow> for Take<'a> {
    closed spec fn changed(&self) -> spec_fn(QueueView) -> QueueView {
        taken_with(self.handle@, self.attempts, self.now@)
    }

    fn apply(&self, row: &mut QueueRow) {
        if text::same(row.handle.as_str(), self.handle) {
            row.status = JobStatus::Processing;
            row.attempts = self.attempts;
            row.locked_at = Some(self.now.to_string());
            row.last_error = None;
        }
    }
}

proof fn lemma_refreshed(db: DatabaseView, clock: ClockView)
    requires
        db.wf(),
    ensures
        table::distinct_by(refreshed(db, clock), rows::job_key()),
        refreshed(db, clock).len() == db.queue.len(),
        forall|i: int|
            0 <= i < db.queue.len() ==> (#[trigger] refreshed(db, clock)[i]).attempts
                == db.queue[i].attempts && refreshed(db, clock)[i].handle == db.queue[i].handle,
{
    let one = db.queue.map_values(reconciled(db.creators, clock.now));
    table::lemma_distinct_map(db.queue, reconciled(db.creators, clock.now), rows::job_key());
    table::lemma_distinct_map(one, reclaimed(clock.stale_before), rows::job_key());
}

proof fn lemma_claimed(db: DatabaseView, f: ClaimView, clock: ClockView)
    requires
        db.wf(),
    ensures
        claimed(db, f, clock).wf(),
{
    lemma_refreshed(db, clock);
    if let Some(job) = next_job(db, f, clock) {
        table::lemma_distinct_map(
            refreshed(db, clock),
            taken(job.handle, clock.now),
            rows::job_key(),
        );
    }
    lemma_queue_only(db, claimed(db, f, clock).queue);
}

/// Where handles are distinct, setting a job's attempts to one more than it has
/// is adding one to them.
proof fn lemma_taken(queue: Seq<QueueView>, job: QueueView, now: Seq<char>)
    requires
        table::distinct_by(queue, rows::job_key()),
        queue.contains(job),
    ensures
        queue.map_values(taken_with(job.handle, (job.attempts + 1) as u32, now))
            == queue.map_values(taken(job.handle, now)),
{
    let k = choose|k: int| 0 <= k < queue.len() && queue[k] == job;
    let key = rows::job_key();
    let a = queue.map_values(taken_with(job.handle, (job.attempts + 1) as u32, now));
    let b = queue.map_values(taken(job.handle, now));
    assert forall|i: int| 0 <= i < queue.len() implies #[trigger] a[i] == b[i] by {
        if queue[i].handle == job.handle && i != k {
            if i < k {
                assert(key(queue[i]) != key(queue[k]));
            } else {
                assert(key(queue[k]) != key(queue[i]));
            }
        }
    }
    assert(a =~= b);
}

/// The members of a chosen list are rows that meet the condition.
pub proof fn lemma_chosen_members<V>(
    rows: Seq<V>,
    wanted: spec_fn(V) -> bool,
    key: spec_fn(V) -> Seq<SortView>,
    descending: Seq<bool>,
)
    ensures
        forall|i: int|
            0 <= i < table::chosen(rows, wanted, key, descending).len() ==> {
                let v = #[trigger] table::chosen(rows, wanted, key, descending)[i];
                rows.contains(v) && wanted(v)
            },
        table::chosen(rows, wanted, key, descending).len() == rows.filter(wanted).len(),
{
    let hits = rows.filter(wanted);
    let keys = hits.map_values(key);
    ranking::lemma_ranking(keys, descending);
    ranking::lemma_ranking_len(keys, descending);
    table::lemma_filter_members(rows, wanted);
    let places = ranking::ranking(keys, descending);
    let all = table::chosen(rows, wanted, key, descending);
    assert forall|i: int| 0 <= i < all.len() implies {
        let v = #[trigger] all[i];
        rows.contains(v) && wanted(v)
    } by {
        assert(places.contains(places[i]));
        assert(all[i] == hits[places[i]]);
    }
}

impl Database {
    /// Takes the job whose turn it is out of those that the filters admit.
    pub fn claim_next_filtered(&mut self, f: &QueueClaimFilters, clock: &Clock) -> (r: Option<
        QueueJob,
    >)
        requires
            old(self)@.wf(),
            next_job(old(self)@, f@, clock@) matches Some(row) ==> row.attempts < u32::MAX,
        ensures
            final(self)@.wf(),
            final(self)@ == claimed(old(self)@, f@, clock@),
            match r {
                Some(job) => match next_job(old(self)@, f@, clock@) {
                    Some(row) => job.handle@ == row.handle && job.attempts == row.attempts + 1,
                    None => false,
                },
                None => next_job(old(self)@, f@, clock@) is None,
            },
    {
        let ghost start = self@;
        proof {
            lemma_refreshed(start, clock@);
            lemma_claimed(start, f@, clock@);
        }
        table::update_rows(
            &mut self.queue,
            &Reconcile { creators: &self.creators, now: clock.now.as_str() },
        );
        table::update_rows(
            &mut self.queue,
            &Reclaim { stale_before: clock.stale_before.as_str() },
        );
        let test: Claimable = Claimable {
            language: filters::normalized_language_filter(as_str_opt(&f.language_code)),
            app: filters::normalized_specific_app_filter(as_str_opt(&f.app_name)),
            apps: filters::normalized_values(&f.app_names),
            countries: filters::normalized_upper_values(&f.country_codes),
            handles: handles::normalize_many(&f.handles),
            whitelist_only: f.whitelist_only,
        };
        let ghost queue = table::views(self.queue@);
        let found: Option<QueueJob> = {
            let joined: Vec<JoinedJob<'_>> = joins::join_queue(
                &self.apps,
                &self.creators,
                &self.queue,
            );
            let picked: Vec<usize> = table::select_rows(&joined, &test, &Turn {  }, 1, 0);
            let ghost order = claim_order(start, f@, clock@);
            proof {
                lemma_chosen_members(
                    joins::joined(start.apps, start.creators, queue),
                    claimable(f@),
                    turn_key(),
                    turn_directions(),
                );
                joins::lemma_joined_members(start.apps, start.creators, queue);
                assert(queue == refreshed(start, clock@));
                assert(table::page(order, 1, 0).len() == if order.len() > 0 {
                    1nat
                } else {
                    0
                });
            }
            if picked.len() == 0 {
                None
            } else {
                let job: &JoinedJob<'_> = &joined[picked[0]];
                proof {
                    assert(job@ == table::page(order, 1, 0)[0]);
                    assert(table::page(order, 1, 0)[0] == order[0]);
                    assert(queue.contains(job@.row));
                }
                Some(QueueJob { handle: job.row.handle.clone(), attempts: job.row.attempts })
            }
        };
        match found {
            None => None,
            Some(job) => {
                proof {
                    let row = next_job(start, f@, clock@)->0;
                    assert(queue.contains(row));
                    let k = choose|k: int| 0 <= k < queue.len() && queue[k] == row;
                    assert(queue[k].attempts == start.queue[k].attempts);
                    lemma_taken(queue, row, clock.now@);
                }
                let attempts: u32 = job.attempts + 1;
                table::update_rows(
                    &mut self.queue,
                    &Take { handle: job.handle.as_str(), attempts, now: clock.now.as_str() },
                );
                Some(QueueJob { handle: job.handle, attempts })
            },
        }
    }
}

} // verus!
