//! What becomes of jobs that were taken.

use vstd::prelude::*;
use crate::db::filters::DbError;
use crate::db::joins;
use crate::db::joins::JoinedView;
use crate::db::queue;
use crate::db::queue::{ClaimView, KEPT_ERROR_CHARS, MAX_ATTEMPTS};
use crate::db::rows;
use crate::db::rows::{
    AppPolicy, CreatorView, Database, DatabaseView, JobStatus, QueueRow, QueueView,
};
use crate::db::table;
use crate::db::table::{RowChange, RowTest};
use crate::handles;
use crate::lists;
use crate::moment::ClockView;
use crate::order;
use crate::ranking;
use crate::search;
use crate::text;

verus! {

/// The job with the handle is done.
pub open spec fn finished(handle: Seq<char>, at: Seq<char>) -> spec_fn(QueueView) -> QueueView {
    |q: QueueView|
        if q.handle == handle {
            QueueView {
                status: JobStatus::Done,
                scraped_at: Some(at),
                locked_at: None,
                last_error: None,
                ..q
            }
        } else {
            q
        }
}

/// The job with the handle did not succeed.
pub open spec fn unsuccessful(handle: Seq<char>, error: Seq<char>) -> spec_fn(
    QueueView,
) -> QueueView {
    |q: QueueView|
        if q.handle == handle {
            QueueView {
                status: queue::after_failure(q.attempts),
                locked_at: None,
                last_error: Some(search::cut(error, KEPT_ERROR_CHARS as nat)),
                ..q
            }
        } else {
            q
        }
}

/// Marks the job with the handle as done.
pub struct Finish<'a> {
    pub handle: &'a str,
    pub at: &'a str,
}

impl<'a> RowChange<QueueRow> for Finish<'a> {
    open spec fn changed(&self) -> spec_fn(QueueView) -> QueueView {
        finished(self.handle@, self.at@)
    }

    fn apply(&self, row: &mut QueueRow) {
        if text::same(row.handle.as_str(), self.handle) {
            row.status = JobStatus::Done;
            row.scraped_at = Some(self.at.to_string());
            row.locked_at = None;
            row.last_error = None;
        }
    }
}

struct Fail<'a> {
    handle: &'a str,
    error: &'a str,
}

impl<'a> RowChange<QueueRow> for Fail<'a> {
    closed spec fn changed(&self) -> spec_fn(QueueView) -> QueueView {
        unsuccessful(self.handle@, self.error@)
    }

    fn apply(&self, row: &mut QueueRow) {
        if text::same(row.handle.as_str(), self.handle) {
            row.status = queue::status_after_failure(row.attempts);
            row.locked_at = None;
            row.last_error = Some(search::cut_to(self.error, KEPT_ERROR_CHARS));
        }
    }
}

/// The job was found at the source and is not done.
pub open spec fn unfinished_from(source: Seq<char>) -> spec_fn(QueueView) -> bool {
    |q: QueueView| q.discovered_from == Some(source) && q.status != JobStatus::Done
}

struct UnfinishedFrom<'a> {
    source: &'a str,
}

impl<'a> RowTest<QueueRow> for UnfinishedFrom<'a> {
    closed spec fn wanted(&self) -> spec_fn(QueueView) -> bool {
        unfinished_from(self.source@)
    }

    fn test(&self, row: &QueueRow) -> (r: bool) {
        let done: bool = match row.status {
            JobStatus::Done => true,
            _ => false,
        };
        match &row.discovered_from {
            Some(from) => !done && text::same(from.as_str(), self.source),
            None => false,
        }
    }
}

/// The job was found at the source, and nobody works on it or has finished it.
pub open spec fn prunable_from(source: Seq<char>) -> spec_fn(QueueView) -> bool {
    |q: QueueView|
        q.discovered_from == Some(source) && (q.status == JobStatus::Pending || q.status
            == JobStatus::Retry || q.status == JobStatus::Failed)
}

/// The jobs that are dropped when a creator turns out to have no app.
pub struct PrunableFrom<'a> {
    pub source: &'a str,
}

impl<'a> RowTest<QueueRow> for PrunableFrom<'a> {
    open spec fn wanted(&self) -> spec_fn(QueueView) -> bool {
        prunable_from(self.source@)
    }

    fn test(&self, row: &QueueRow) -> (r: bool) {
        let listed: bool = match row.status {
            JobStatus::Pending | JobStatus::Retry | JobStatus::Failed => true,
            _ => false,
        };
        match &row.discovered_from {
            Some(from) => listed && text::same(from.as_str(), self.source),
            None => false,
        }
    }
}

impl Database {
    /// Marks a job as done.
    pub fn mark_done(&mut self, handle: &str, now: &str) -> (r: Result<(), DbError>)
        requires
            old(self)@.wf(),
        ensures
            final(self)@.wf(),
            match handles::normalized_handle(handle@) {
                None => r == Err::<(), DbError>(DbError::InvalidHandle) && final(self)@ == old(self)@,
                Some(h) => r == Ok::<(), DbError>(()) && final(self)@ == (DatabaseView {
                    queue: old(self)@.queue.map_values(finished(h, now@)),
                    ..old(self)@
                }),
            },
    {
        let ghost start = self@;
        match handles::normalize_handle(handle) {
            None => Err(DbError::InvalidHandle),
            Some(h) => {
                table::update_rows(&mut self.queue, &Finish { handle: h.as_str(), at: now });
                proof {
                    table::lemma_distinct_map(start.queue, finished(h@, now@), rows::job_key());
                    queue::lemma_queue_only(start, self@.queue);
                }
                Ok(())
            },
        }
    }

    /// Marks a job as not successful: it is tried again, unless it was tried
    /// often enough.
    pub fn mark_failed(&mut self, handle: &str, error: &str) -> (r: Result<(), DbError>)
        requires
            old(self)@.wf(),
        ensures
            final(self)@.wf(),
            match handles::normalized_handle(handle@) {
                None => r == Err::<(), DbError>(DbError::InvalidHandle) && final(self)@ == old(self)@,
                Some(h) => r == Ok::<(), DbError>(()) && final(self)@ == (DatabaseView {
                    queue: old(self)@.queue.map_values(unsuccessful(h, error@)),
                    ..old(self)@
                }),
            },
    {
        let ghost start = self@;
        match handles::normalize_handle(handle) {
            None => Err(DbError::InvalidHandle),
            Some(h) => {
                table::update_rows(&mut self.queue, &Fail { handle: h.as_str(), error });
                proof {
                    table::lemma_distinct_map(
                        start.queue,
                        unsuccessful(h@, error@),
                        rows::job_key(),
                    );
                    queue::lemma_queue_only(start, self@.queue);
                }
                Ok(())
            },
        }
    }

    /// Removes the jobs that were found at a creator and are not done. Returns
    /// how many there were.
    pub fn remove_queue_items_from_source(&mut self, source_handle: &str) -> (r: Result<
        usize,
        DbError,
    >)
        requires
            old(self)@.wf(),
        ensures
            final(self)@.wf(),
            match handles::normalized_handle(source_handle@) {
                None => r == Err::<usize, DbError>(DbError::InvalidSourceHandle) && final(self)@
                    == old(self)@,
                Some(h) => r == Ok::<usize, DbError>(
                    lists::count(old(self)@.queue, unfinished_from(h)) as usize,
                ) && final(self)@ == (DatabaseView {
                    queue: table::without(old(self)@.queue, unfinished_from(h)),
                    ..old(self)@
                }),
            },
    {
        let ghost start = self@;
        match handles::normalize_handle(source_handle) {
            None => Err(DbError::InvalidSourceHandle),
            Some(h) => {
                let n: usize = table::delete_rows(
                    &mut self.queue,
                    &UnfinishedFrom { source: h.as_str() },
                );
                proof {
                    table::lemma_distinct_filter(
                        start.queue,
                        table::opposite(unfinished_from(h@)),
                        rows::job_key(),
                    );
                    queue::lemma_queue_only(start, self@.queue);
                }
                Ok(n)
            },
        }
    }
}

// ---------------------------------------------------------------------------
// Laws
// ---------------------------------------------------------------------------
/// A job that is taken was waiting, belongs to no creator that is known, and,
/// unless creators were asked for by name, is for no app on the black list. Each
/// filter that is set holds of it.
pub proof fn law_claimed_job_is_admitted(db: DatabaseView, f: ClaimView, clock: ClockView)
    requires
        db.wf(),
        queue::next_job(db, f, clock) is Some,
    ensures
        ({
            let job = queue::claim_order(db, f, clock)[0];
            &&& queue::next_job(db, f, clock) == Some(job.row)
            &&& queue::refreshed(db, clock).contains(job.row)
            &&& queue::is_open(job.row.status)
            &&& !rows::has_creator(db.creators, job.row.handle)
            &&& f.handles.len() == 0 ==> job.policy != Some(AppPolicy::Blacklist)
            &&& f.handles.len() > 0 ==> f.handles.contains(job.row.handle)
            &&& queue::may_claim(f, job)
        }),
{
    let all = joins::joined(db.apps, db.creators, queue::refreshed(db, clock));
    queue::lemma_chosen_members(
        all,
        queue::claimable(f),
        queue::turn_key(),
        queue::turn_directions(),
    );
    joins::lemma_joined_members(db.apps, db.creators, queue::refreshed(db, clock));
    let job = queue::claim_order(db, f, clock)[0];
    assert(all.contains(job));
    let k = choose|k: int| 0 <= k < all.len() && all[k] == job;
    assert(queue::refreshed(db, clock).contains(all[k].row));
    let rows_now = queue::refreshed(db, clock);
    let i = choose|i: int| 0 <= i < rows_now.len() && rows_now[i] == job.row;
    let one = db.queue.map_values(queue::reconciled(db.creators, clock.now));
    assert(rows_now[i] == queue::reclaimed(clock.stale_before)(one[i]));
    assert(one[i] == queue::reconciled(db.creators, clock.now)(db.queue[i]));
}

/// `a` goes before `b`: it was put first by hand and `b` was not; or neither
/// differs in that, and it is for an app on the white list and `b` is not; or
/// neither differs in that either, and it was found earlier.
pub open spec fn goes_before(a: JoinedView, b: JoinedView) -> bool {
    let white_a = a.policy == Some(AppPolicy::Whitelist);
    let white_b = b.policy == Some(AppPolicy::Whitelist);
    if a.row.manual_priority != b.row.manual_priority {
        a.row.manual_priority
    } else if white_a != white_b {
        white_a
    } else {
        order::before(a.row.found_at, b.row.found_at)
    }
}

/// No job that may be taken goes before the one that is taken, and where some
/// job may be taken, one is.
pub proof fn law_claim_takes_turns(
    db: DatabaseView,
    f: ClaimView,
    clock: ClockView,
    other: JoinedView,
)
    requires
        joins::joined(db.apps, db.creators, queue::refreshed(db, clock)).contains(other),
        queue::may_claim(f, other),
    ensures
        queue::next_job(db, f, clock) is Some,
        !goes_before(other, queue::claim_order(db, f, clock)[0]),
{
    let all = joins::joined(db.apps, db.creators, queue::refreshed(db, clock));
    let p = queue::claimable(f);
    let hits = all.filter(p);
    let k = choose|k: int| 0 <= k < all.len() && all[k] == other;
    all.lemma_filter_contains(p, k);
    assert(hits.contains(other));
    let m = choose|m: int| 0 <= m < hits.len() && hits[m] == other;
    let keys = hits.map_values(queue::turn_key());
    let down = queue::turn_directions();
    ranking::lemma_ranking(keys, down);
    ranking::lemma_ranking_len(keys, down);
    let places = ranking::ranking(keys, down);
    assert(places.contains(m));
    let at = choose|at: int| 0 <= at < places.len() && places[at] == m;
    let order = queue::claim_order(db, f, clock);
    assert(order[0] == hits[places[0]]);
    let a = keys[places[0]];
    let b = keys[m];
    assert(places.contains(places[0]));
    assert(a == queue::turn_key()(order[0]));
    assert(b == queue::turn_key()(other));
    if at > 0 {
        assert(ranking::row_order(keys, down)(places[0], places[at]));
    }
    reveal_with_fuel(ranking::key_before, 4);
    if goes_before(other, order[0]) {
        order::lemma_before_irreflexive(other.row.found_at);
        order::lemma_before_asymmetric(other.row.found_at, order[0].row.found_at);
        assert(ranking::key_before(b, a, down, 0));
        assert(!ranking::key_before(a, b, down, 0));
    }
}

/// A job is never tried more often than the limit; one that waits has tries
/// left.
pub open spec fn attempts_bounded(jobs: Seq<QueueView>) -> bool {
    forall|i: int|
        0 <= i < jobs.len() ==> {
            let q = #[trigger] jobs[i];
            &&& q.attempts <= MAX_ATTEMPTS
            &&& q.status == JobStatus::Pending || q.status == JobStatus::Retry || q.status
                == JobStatus::Excluded ==> q.attempts < MAX_ATTEMPTS
        }
}

/// A job that is taken has tries left, and taking it keeps the number of tries
/// bounded.
pub proof fn law_claim_keeps_attempts_bounded(db: DatabaseView, f: ClaimView, clock: ClockView)
    requires
        db.wf(),
        attempts_bounded(db.queue),
    ensures
        queue::next_job(db, f, clock) matches Some(job) ==> job.attempts < MAX_ATTEMPTS,
        attempts_bounded(queue::claimed(db, f, clock).queue),
{
    let one = db.queue.map_values(queue::reconciled(db.creators, clock.now));
    let two = queue::refreshed(db, clock);
    assert forall|i: int| 0 <= i < two.len() implies {
        let q = #[trigger] two[i];
        &&& q.attempts <= MAX_ATTEMPTS
        &&& q.status == JobStatus::Pending || q.status == JobStatus::Retry || q.status
            == JobStatus::Excluded ==> q.attempts < MAX_ATTEMPTS
    } by {
        assert(one[i] == queue::reconciled(db.creators, clock.now)(db.queue[i]));
        assert(two[i] == queue::reclaimed(clock.stale_before)(one[i]));
        assert(db.queue[i].attempts <= MAX_ATTEMPTS);
    }
    if queue::next_job(db, f, clock) is Some {
        law_claimed_job_is_admitted(db, f, clock);
        let job = queue::next_job(db, f, clock)->0;
        let done = queue::claimed(db, f, clock).queue;
        table::lemma_distinct_map(
            db.queue,
            queue::reconciled(db.creators, clock.now),
            rows::job_key(),
        );
        table::lemma_distinct_map(one, queue::reclaimed(clock.stale_before), rows::job_key());
        let k = choose|k: int| 0 <= k < two.len() && two[k] == job;
        let key = rows::job_key();
        assert forall|i: int| 0 <= i < done.len() implies {
            let q = #[trigger] done[i];
            &&& q.attempts <= MAX_ATTEMPTS
            &&& q.status == JobStatus::Pending || q.status == JobStatus::Retry || q.status
                == JobStatus::Excluded ==> q.attempts < MAX_ATTEMPTS
        } by {
            assert(done[i] == queue::taken(job.handle, clock.now)(two[i]));
            if two[i].handle == job.handle {
                if i < k {
                    assert(key(two[i]) != key(two[k]));
                }
                if k < i {
                    assert(key(two[k]) != key(two[i]));
                }
                assert(two[k].attempts < MAX_ATTEMPTS);
            }
        }
    }
}

/// Putting creators in, putting them first, and marking jobs keeps the number
/// of tries bounded.
pub proof fn law_marking_keeps_attempts_bounded(
    jobs: Seq<QueueView>,
    handle: Seq<char>,
    t: Seq<char>,
)
    requires
        attempts_bounded(jobs),
    ensures
        attempts_bounded(jobs.map_values(finished(handle, t))),
        attempts_bounded(jobs.map_values(unsuccessful(handle, t))),
        attempts_bounded(jobs.map_values(queue::put_first(handle))),
        attempts_bounded(jobs.map_values(queue::expecting(handle, Some(t)))),
        attempts_bounded(jobs.push(queue::new_job(handle, Some(t), None, t, true))),
{
}

/// A job that fails for the last time is never taken again, unless it is put
/// first by hand: marking it as not successful makes it failed for good.
pub proof fn law_last_failure_is_final(
    jobs: Seq<QueueView>,
    k: int,
    error: Seq<char>,
)
    requires
        0 <= k < jobs.len(),
        jobs[k].attempts >= MAX_ATTEMPTS,
    ensures
        ({
            let after = jobs.map_values(unsuccessful(jobs[k].handle, error));
            &&& after[k].status == JobStatus::Failed
            &&& !queue::is_open(after[k].status)
            &&& after[k].last_error == Some(search::cut(error, KEPT_ERROR_CHARS as nat))
        }),
{
}

/// A job that failed before the last try is waiting again, and loses no try.
pub proof fn law_early_failure_is_retried(jobs: Seq<QueueView>, k: int, error: Seq<char>)
    requires
        0 <= k < jobs.len(),
        jobs[k].attempts < MAX_ATTEMPTS,
    ensures
        ({
            let after = jobs.map_values(unsuccessful(jobs[k].handle, error));
            &&& after[k].status == JobStatus::Retry
            &&& queue::is_open(after[k].status)
            &&& after[k].attempts == jobs[k].attempts
        }),
{
}

/// Taking a job changes no other job but those of known creators and those
/// whose worker did not come back.
pub proof fn law_claim_leaves_other_jobs(
    db: DatabaseView,
    f: ClaimView,
    clock: ClockView,
    i: int,
)
    requires
        0 <= i < db.queue.len(),
        !rows::has_creator(db.creators, db.queue[i].handle),
        !queue::is_stale(db.queue[i].status, db.queue[i].locked_at, clock.stale_before),
        match queue::next_job(db, f, clock) {
            Some(job) => job.handle != db.queue[i].handle,
            None => true,
        },
    ensures
        queue::claimed(db, f, clock).queue[i] == db.queue[i],
{
    let one = db.queue.map_values(queue::reconciled(db.creators, clock.now));
    let two = queue::refreshed(db, clock);
    assert(one[i] == db.queue[i]);
    assert(two[i] == one[i]);
}

/// A creator that is put first and is neither known nor worked on waits, is
/// marked as put first, and has all tries left if it had failed.
pub proof fn law_put_first_waits(
    creators: Seq<CreatorView>,
    jobs: Seq<QueueView>,
    handle: Seq<char>,
    now: Seq<char>,
    i: int,
)
    requires
        0 <= i < queue::with_first(creators, jobs, handle, now).len(),
        queue::with_first(creators, jobs, handle, now)[i].handle == handle,
    ensures
        ({
            let job = queue::with_first(creators, jobs, handle, now)[i];
            ||| job.status == JobStatus::Processing && i < jobs.len() && job == jobs[i]
            ||| job.status == JobStatus::Done && i < jobs.len() && job == jobs[i]
            ||| job.status == JobStatus::Pending && job.manual_priority && job.locked_at is None && (
            i < jobs.len() && jobs[i].status != JobStatus::Failed ==> job.attempts
                == jobs[i].attempts) && (i < jobs.len() && jobs[i].status == JobStatus::Failed
                ==> job.attempts == 0)
        }),
{
}

/// A creator that is put first is known or in the queue.
pub proof fn law_put_first_is_queued(
    creators: Seq<CreatorView>,
    jobs: Seq<QueueView>,
    handle: Seq<char>,
    now: Seq<char>,
)
    ensures
        rows::has_creator(creators, handle) || rows::in_queue(
            queue::with_first(creators, jobs, handle, now),
            handle,
        ),
{
    let change = queue::put_first(handle);
    let p = rows::job_is(handle);
    let job = queue::new_job(handle, None, None, now, true);
    table::lemma_some_row_map(jobs, change, p);
    table::lemma_some_row_map(jobs.push(job), change, p);
    table::lemma_some_row_push(jobs, job, p);
}

} // verus!
