//! What each change of the database does to every row.

use vstd::prelude::*;
use crate::db::apps;
use crate::db::claim_laws;
use crate::db::creators;
use crate::db::filters;
use crate::db::joins;
use crate::db::outcomes;
use crate::db::queue;
use crate::db::rows;
use crate::db::rows::{
    AppPolicy, AppView, ContactStatus, CreatorView, DatabaseView, JobStatus, QueueView,
};
use crate::db::table;
use crate::lists;
use crate::search;
use crate::services::tiktok;
use crate::text;

verus! {

// ---------------------------------------------------------------------------
// Marking jobs
// ---------------------------------------------------------------------------
/// Marking a job as done notes the time, frees it and forgets its last error;
/// marking it as not successful frees it, keeps the first 1500 characters of the
/// error, and lets it wait again before the third try and fail after it. What was
/// noted when it was put in and the number of tries stay, and so do other jobs.
pub proof fn law_marking_a_job(
    jobs: Seq<QueueView>,
    handle: Seq<char>,
    at: Seq<char>,
    error: Seq<char>,
    k: int,
)
    requires
        0 <= k < jobs.len(),
    ensures
        ({
            let q = jobs[k];
            let done = jobs.map_values(outcomes::finished(handle, at))[k];
            let failed = jobs.map_values(outcomes::unsuccessful(handle, error))[k];
            &&& q.handle != handle ==> done == q && failed == q
            &&& q.handle == handle ==> done == (QueueView {
                status: JobStatus::Done,
                scraped_at: Some(at),
                locked_at: None,
                last_error: None,
                ..q
            })
            &&& q.handle == handle ==> failed.status == (if q.attempts >= 3 {
                JobStatus::Failed
            } else {
                JobStatus::Retry
            }) && failed.locked_at is None && failed.last_error is Some && failed.attempts
                == q.attempts && failed.scraped_at == q.scraped_at && failed.found_at == q.found_at
                && failed.discovered_from == q.discovered_from && failed.expected_app_name
                == q.expected_app_name && failed.manual_priority == q.manual_priority
                && failed.handle == q.handle
            &&& q.handle == handle && error.len() <= 1500 ==> failed.last_error == Some(error)
            &&& q.handle == handle && error.len() > 1500 ==> failed.last_error == Some(
                error.take(1500),
            )
        }),
{
}

/// The jobs that are removed with their source are those that were found at it and
/// are not done: no other job is lost, and none of them stays.
pub proof fn law_jobs_are_removed_with_their_source(
    jobs: Seq<QueueView>,
    source: Seq<char>,
    q: QueueView,
)
    ensures
        table::without(jobs, outcomes::unfinished_from(source)).contains(q) <==> jobs.contains(q)
            && !(q.discovered_from == Some(source) && q.status != JobStatus::Done),
        lists::count(jobs, outcomes::unfinished_from(source)) == jobs.filter(
            |j: QueueView| j.discovered_from == Some(source) && j.status != JobStatus::Done,
        ).len(),
{
    let p = outcomes::unfinished_from(source);
    lemma_without(jobs, p, q);
    assert(p =~= (|j: QueueView|
        j.discovered_from == Some(source) && j.status != JobStatus::Done));
}

/// What stays are the rows that do not meet the condition.
pub proof fn lemma_without<V>(rows: Seq<V>, p: spec_fn(V) -> bool, v: V)
    ensures
        table::without(rows, p).contains(v) <==> rows.contains(v) && !p(v),
{
    let q = table::opposite(p);
    let kept = rows.filter(q);
    table::lemma_filter_members(rows, q);
    if kept.contains(v) {
        let i = choose|i: int| 0 <= i < kept.len() && kept[i] == v;
        assert(rows.contains(kept[i]) && q(kept[i]));
    }
    if rows.contains(v) && !p(v) {
        let i = choose|i: int| 0 <= i < rows.len() && rows[i] == v;
        rows.lemma_filter_contains(q, i);
    }
}

// ---------------------------------------------------------------------------
// Putting jobs in
// ---------------------------------------------------------------------------
/// A creator has a row.
pub open spec fn has_row(creators: Seq<CreatorView>, handle: Seq<char>) -> bool {
    exists|k: int| 0 <= k < creators.len() && (#[trigger] creators[k]).handle == handle
}

/// A handle has a job.
pub open spec fn has_job(jobs: Seq<QueueView>, handle: Seq<char>) -> bool {
    exists|k: int| 0 <= k < jobs.len() && (#[trigger] jobs[k]).handle == handle
}

/// An app has a row.
pub open spec fn has_app_row(apps: Seq<AppView>, name: Seq<char>) -> bool {
    exists|k: int| 0 <= k < apps.len() && (#[trigger] apps[k]).name == name
}

pub proof fn lemma_has_row(creators: Seq<CreatorView>, handle: Seq<char>)
    ensures
        rows::has_creator(creators, handle) == has_row(creators, handle),
{
    let p = rows::creator_is(handle);
    if rows::has_creator(creators, handle) {
        let k = choose|k: int| 0 <= k < creators.len() && p(#[trigger] creators[k]);
        assert(creators[k].handle == handle);
    }
    if has_row(creators, handle) {
        let k = choose|k: int| 0 <= k < creators.len() && (#[trigger] creators[k]).handle == handle;
        assert(p(creators[k]));
    }
}

pub proof fn lemma_has_job(jobs: Seq<QueueView>, handle: Seq<char>)
    ensures
        rows::in_queue(jobs, handle) == has_job(jobs, handle),
{
    let p = rows::job_is(handle);
    if rows::in_queue(jobs, handle) {
        let k = choose|k: int| 0 <= k < jobs.len() && p(#[trigger] jobs[k]);
        assert(jobs[k].handle == handle);
    }
    if has_job(jobs, handle) {
        let k = choose|k: int| 0 <= k < jobs.len() && (#[trigger] jobs[k]).handle == handle;
        assert(p(jobs[k]));
    }
}

pub proof fn lemma_has_app_row(apps: Seq<AppView>, name: Seq<char>)
    ensures
        rows::has_app(apps, name) == has_app_row(apps, name),
{
    let p = rows::app_is(name);
    if rows::has_app(apps, name) {
        let k = choose|k: int| 0 <= k < apps.len() && p(#[trigger] apps[k]);
        assert(apps[k].name == name);
    }
    if has_app_row(apps, name) {
        let k = choose|k: int| 0 <= k < apps.len() && (#[trigger] apps[k]).name == name;
        assert(p(apps[k]));
    }
}

/// Putting a creator into the queue adds one job at the end where the creator has
/// neither a row nor a job. The job waits untried and says where and when it was
/// found and which app to expect. A job that is there only learns the app, and the
/// other jobs and all creators stay as they are.
pub proof fn law_putting_a_job_in(
    db: DatabaseView,
    handle: Seq<char>,
    from: Option<Seq<char>>,
    app: Option<Seq<char>>,
    now: Seq<char>,
    k: int,
)
    ensures
        ({
            let after = queue::enqueued(db, handle, from, app, now);
            let known = has_row(db.creators, handle);
            let there = has_job(db.queue, handle);
            let n = db.queue.len() as int;
            &&& known || there ==> after.queue.len() == n
            &&& !known && !there ==> after.queue.len() == n + 1 && after.queue[n] == (QueueView {
                handle: handle,
                discovered_from: from,
                expected_app_name: app,
                found_at: now,
                status: JobStatus::Pending,
                attempts: 0,
                manual_priority: false,
                locked_at: None,
                scraped_at: None,
                last_error: None,
            })
            &&& 0 <= k < n && (known || db.queue[k].handle != handle || app is None)
                ==> after.queue[k] == db.queue[k]
            &&& 0 <= k < n && !known && db.queue[k].handle == handle && app is Some
                ==> after.queue[k] == (QueueView { expected_app_name: app, ..db.queue[k] })
            &&& app is None ==> after.apps == db.apps
            &&& after == (DatabaseView { apps: after.apps, queue: after.queue, ..db })
        }),
        app is Some ==> app_is_seen(
            db.apps,
            queue::enqueued(db, handle, from, app, now).apps,
            app->0,
            now,
        ),
{
    lemma_has_row(db.creators, handle);
    lemma_has_job(db.queue, handle);
    if 0 <= k < db.queue.len() && db.queue[k].handle == handle {
        assert(has_job(db.queue, handle));
    }
    if let Some(name) = app {
        lemma_app_seen(db.apps, name, now);
    }
}

/// The table of apps after the named app was seen: its row says when it was seen
/// last, a new row is neutral, and nothing else changes.
pub open spec fn app_is_seen(
    before: Seq<AppView>,
    after: Seq<AppView>,
    name: Seq<char>,
    now: Seq<char>,
) -> bool {
    &&& has_app_row(before, name) ==> after.len() == before.len()
    &&& !has_app_row(before, name) ==> after == before.push(
        AppView {
            name: name,
            first_seen_at: now,
            last_seen_at: now,
            policy: AppPolicy::Neutral,
        },
    )
    &&& forall|k: int|
        0 <= k < before.len() ==> #[trigger] after[k] == if before[k].name == name {
            AppView { last_seen_at: now, ..before[k] }
        } else {
            before[k]
        }
}

proof fn lemma_app_seen(before: Seq<AppView>, name: Seq<char>, now: Seq<char>)
    ensures
        app_is_seen(before, apps::with_app_seen(before, name, now), name, now),
{
    lemma_has_app_row(before, name);
    let after = apps::with_app_seen(before, name, now);
    assert forall|k: int| 0 <= k < before.len() implies #[trigger] after[k] == if before[k].name
        == name {
        AppView { last_seen_at: now, ..before[k] }
    } else {
        before[k]
    } by {
        if !has_app_row(before, name) && before[k].name == name {
            assert(has_app_row(before, name));
        }
    }
}

// ---------------------------------------------------------------------------
// Putting creators first
// ---------------------------------------------------------------------------
proof fn lemma_first_step(
    creators: Seq<CreatorView>,
    jobs: Seq<QueueView>,
    handle: Seq<char>,
    now: Seq<char>,
    k: int,
)
    ensures
        ({
            let after = queue::with_first(creators, jobs, handle, now);
            &&& after.len() == jobs.len() + if has_row(creators, handle) || has_job(jobs, handle) {
                0int
            } else {
                1int
            }
            &&& 0 <= k < jobs.len() ==> after[k].handle == jobs[k].handle
            &&& 0 <= k < jobs.len() && jobs[k].handle != handle ==> after[k] == jobs[k]
            &&& has_row(creators, handle) || has_job(after, handle)
            &&& has_job(jobs, handle) ==> has_job(after, handle)
        }),
{
    lemma_has_row(creators, handle);
    lemma_has_job(jobs, handle);
    let after = queue::with_first(creators, jobs, handle, now);
    if has_job(jobs, handle) {
        let i = choose|i: int| 0 <= i < jobs.len() && (#[trigger] jobs[i]).handle == handle;
        assert(after[i].handle == handle);
    } else if !has_row(creators, handle) {
        assert(after[jobs.len() as int].handle == handle);
    }
}

/// After creators were put first, each of them has a row or a job. A job for one of
/// them waits and is marked as put first, unless somebody works on it or it is
/// done, when it stays as it is; one that had failed has all its tries again. The
/// jobs for other creators stay as they are.
pub proof fn law_creators_that_are_put_first(
    creators: Seq<CreatorView>,
    jobs: Seq<QueueView>,
    wanted: Seq<Seq<char>>,
    now: Seq<char>,
    k: int,
)
    ensures
        ({
            let after = queue::with_all_first(creators, jobs, wanted, now);
            &&& after.len() >= jobs.len()
            &&& after.len() - jobs.len() == queue::jobs_added(creators, jobs, wanted, now)
            &&& forall|h: Seq<char>| #[trigger]
                wanted.contains(h) ==> has_row(creators, h) || has_job(after, h)
            &&& 0 <= k < jobs.len() ==> after[k].handle == jobs[k].handle && after[k].found_at
                == jobs[k].found_at && after[k].discovered_from == jobs[k].discovered_from
                && after[k].expected_app_name == jobs[k].expected_app_name && after[k].scraped_at
                == jobs[k].scraped_at
            &&& 0 <= k < jobs.len() && (!wanted.contains(jobs[k].handle) || jobs[k].status
                == JobStatus::Processing || jobs[k].status == JobStatus::Done) ==> after[k]
                == jobs[k]
            &&& 0 <= k < jobs.len() && wanted.contains(jobs[k].handle) && jobs[k].status
                != JobStatus::Processing && jobs[k].status != JobStatus::Done ==> after[k].status
                == JobStatus::Pending && after[k].manual_priority && after[k].locked_at is None
                && after[k].last_error is None && after[k].attempts == (if jobs[k].status
                == JobStatus::Failed {
                0
            } else {
                jobs[k].attempts
            })
            &&& jobs.len() <= k < after.len() ==> wanted.contains(after[k].handle) && after[k]
                == (QueueView {
                handle: after[k].handle,
                discovered_from: None,
                expected_app_name: None,
                found_at: now,
                status: JobStatus::Pending,
                attempts: 0,
                manual_priority: true,
                locked_at: None,
                scraped_at: None,
                last_error: None,
            }) && !has_row(creators, after[k].handle) && !has_job(jobs, after[k].handle)
        }),
    decreases wanted.len(),
{
    if wanted.len() > 0 {
        let rest = wanted.drop_last();
        let last = wanted.last();
        let mid = queue::with_all_first(creators, jobs, rest, now);
        let after = queue::with_all_first(creators, jobs, wanted, now);
        law_creators_that_are_put_first(creators, jobs, rest, now, k);
        lemma_has_row(creators, last);
        lemma_has_job(mid, last);
        lemma_first_step(creators, mid, last, now, k);
        assert(after == queue::with_first(creators, mid, last, now));
        assert(wanted[wanted.len() - 1] == last);
        assert forall|h: Seq<char>| #[trigger] wanted.contains(h) implies has_row(creators, h)
            || has_job(after, h) by {
            if h != last {
                let i = choose|i: int| 0 <= i < wanted.len() && wanted[i] == h;
                assert(rest[i] == h);
                assert(rest.contains(h));
                if has_job(mid, h) {
                    let m = choose|m: int| 0 <= m < mid.len() && (#[trigger] mid[m]).handle == h;
                    lemma_first_step(creators, mid, last, now, m);
                    assert(after[m].handle == h);
                }
            }
        }
        if 0 <= k < jobs.len() {
            assert(rest.contains(jobs[k].handle) || jobs[k].handle == last <==> wanted.contains(
                jobs[k].handle,
            )) by {
                lemma_contains_last(wanted, jobs[k].handle);
            }
        }
        if jobs.len() <= k < after.len() {
            lemma_contains_last(wanted, after[k].handle);
            if k >= mid.len() {
                if has_job(jobs, last) {
                    let m = choose|m: int| 0 <= m < jobs.len() && (#[trigger] jobs[m]).handle == last;
                    law_creators_that_are_put_first(creators, jobs, rest, now, m);
                    assert(mid[m].handle == last);
                    assert(has_job(mid, last));
                }
            }
        }
    }
}

proof fn lemma_contains_last(wanted: Seq<Seq<char>>, h: Seq<char>)
    requires
        wanted.len() > 0,
    ensures
        wanted.contains(h) <==> wanted.drop_last().contains(h) || h == wanted.last(),
{
    let rest = wanted.drop_last();
    if wanted.contains(h) {
        let i = choose|i: int| 0 <= i < wanted.len() && wanted[i] == h;
        if i < rest.len() {
            assert(rest[i] == h);
        }
    }
    if rest.contains(h) {
        let i = choose|i: int| 0 <= i < rest.len() && rest[i] == h;
        assert(wanted[i] == h);
    }
    assert(wanted[wanted.len() - 1] == wanted.last());
}

// ---------------------------------------------------------------------------
// Policies of apps
// ---------------------------------------------------------------------------
/// The job is for the app, in any case.
pub open spec fn for_app(db: DatabaseView, q: QueueView, name: Seq<char>) -> bool {
    text::lower(claim_laws::or_empty(joins::inferred_app(db.creators, q))) == text::lower(name)
}

/// A job that waits for an app on the black list is left out.
pub open spec fn is_left_out(db: DatabaseView, q: QueueView, name: Seq<char>) -> bool {
    for_app(db, q, name) && (q.status == JobStatus::Pending || q.status == JobStatus::Retry)
}

/// A job that was left out because of the app comes back.
pub open spec fn comes_back(db: DatabaseView, q: QueueView, name: Seq<char>) -> bool {
    for_app(db, q, name) && q.status == JobStatus::Excluded && q.last_error == Some(
        "app blacklisted"@,
    )
}

/// Putting an app on the black list leaves out the jobs that wait for it, and any
/// other policy lets those wait again that were left out because of it; the number
/// that is returned counts them. The app gets the policy, and every other job and
/// app stays as it is.
pub proof fn law_policies_rule_the_jobs_of_their_app(
    db: DatabaseView,
    name: Seq<char>,
    policy: AppPolicy,
    now: Seq<char>,
    k: int,
    m: int,
)
    ensures
        ({
            let after = creators::with_rule(db, name, policy, now);
            let black = policy == AppPolicy::Blacklist;
            &&& after.queue.len() == db.queue.len()
            &&& 0 <= k < db.queue.len() ==> after.queue[k] == if black && is_left_out(
                db,
                db.queue[k],
                name,
            ) {
                QueueView {
                    status: JobStatus::Excluded,
                    locked_at: None,
                    last_error: Some("app blacklisted"@),
                    ..db.queue[k]
                }
            } else if !black && comes_back(db, db.queue[k], name) {
                QueueView { status: JobStatus::Pending, last_error: None, ..db.queue[k] }
            } else {
                db.queue[k]
            }
            &&& black ==> creators::jobs_ruled(db, name, policy) == db.queue.filter(
                |q: QueueView| is_left_out(db, q, name),
            ).len()
            &&& !black ==> creators::jobs_ruled(db, name, policy) == db.queue.filter(
                |q: QueueView| comes_back(db, q, name),
            ).len()
            &&& 0 <= m < db.apps.len() && db.apps[m].name == name ==> after.apps[m] == (AppView {
                last_seen_at: now,
                policy: policy,
                ..db.apps[m]
            })
            &&& 0 <= m < db.apps.len() && db.apps[m].name != name ==> after.apps[m] == db.apps[m]
            &&& has_app_row(db.apps, name) ==> after.apps.len() == db.apps.len()
            &&& !has_app_row(db.apps, name) ==> after.apps == db.apps.push(
                AppView { name: name, first_seen_at: now, last_seen_at: now, policy: policy },
            )
            &&& after == (DatabaseView { apps: after.apps, queue: after.queue, ..db })
        }),
{
    lemma_has_app_row(db.apps, name);
    assert(creators::waits_for(db.creators, name) =~= (|q: QueueView| is_left_out(db, q, name)));
    assert(creators::left_out_for(db.creators, name) =~= (|q: QueueView|
        comes_back(db, q, name)));
    if 0 <= m < db.apps.len() && db.apps[m].name == name {
        assert(has_app_row(db.apps, name));
    }
}

// ---------------------------------------------------------------------------
// Creators
// ---------------------------------------------------------------------------
/// Setting the app of a creator changes that column of that row only. An app is
/// noted as seen; without an app, those jobs are dropped that were found at the
/// creator and that wait or have failed.
pub proof fn law_app_is_set_by_hand(
    db: DatabaseView,
    handle: Seq<char>,
    app: Option<Seq<char>>,
    now: Seq<char>,
    k: int,
    q: QueueView,
)
    ensures
        ({
            let after = creators::with_creator_app(db, handle, app, now);
            let lost = q.discovered_from == Some(handle) && (q.status == JobStatus::Pending
                || q.status == JobStatus::Retry || q.status == JobStatus::Failed);
            &&& after.creators.len() == db.creators.len()
            &&& 0 <= k < db.creators.len() && db.creators[k].handle == handle ==> after.creators[k]
                == (CreatorView { promoted_app_name: app, ..db.creators[k] })
            &&& 0 <= k < db.creators.len() && db.creators[k].handle != handle ==> after.creators[k]
                == db.creators[k]
            &&& app is Some ==> after.queue == db.queue && app_is_seen(
                db.apps,
                after.apps,
                app->0,
                now,
            )
            &&& app is None ==> after.apps == db.apps && (after.queue.contains(q)
                <==> db.queue.contains(q) && !lost)
            &&& after == (DatabaseView {
                apps: after.apps,
                creators: after.creators,
                queue: after.queue,
                ..db
            })
        }),
        lists::count(db.queue, outcomes::prunable_from(handle)) == db.queue.filter(
            |j: QueueView|
                j.discovered_from == Some(handle) && (j.status == JobStatus::Pending || j.status
                    == JobStatus::Retry || j.status == JobStatus::Failed),
        ).len(),
{
    lemma_without(db.queue, outcomes::prunable_from(handle), q);
    if let Some(name) = app {
        lemma_app_seen(db.apps, name, now);
    }
    assert(outcomes::prunable_from(handle) =~= (|j: QueueView|
        j.discovered_from == Some(handle) && (j.status == JobStatus::Pending || j.status
            == JobStatus::Retry || j.status == JobStatus::Failed)));
}

/// Setting the state of a contact changes the state of that creator. A creator who
/// is to be written to keeps the moment of the choice, or gets the present one, and
/// has not been written to; one who was written to keeps both moments, or gets the
/// present one for the contact; one who is neither has no moment. The creator's
/// waiting job is put first exactly if the creator is to be written to.
pub proof fn law_contact_state_is_set(
    db: DatabaseView,
    handle: Seq<char>,
    status: ContactStatus,
    now: Seq<char>,
    k: int,
    m: int,
)
    requires
        0 <= k < db.creators.len(),
    ensures
        ({
            let c = db.creators[k];
            let a = db.creators.map_values(creators::contacted(handle, status, now))[k];
            let since = if c.contact_priority_at is Some {
                c.contact_priority_at
            } else {
                Some(now)
            };
            let written = if c.contacted_at is Some {
                c.contacted_at
            } else {
                Some(now)
            };
            &&& c.handle != handle ==> a == c
            &&& c.handle == handle && status == ContactStatus::ToContact ==> a == (CreatorView {
                contact_status: ContactStatus::ToContact,
                contact_priority_at: since,
                contacted_at: None,
                ..c
            })
            &&& c.handle == handle && status == ContactStatus::Contacted ==> a == (CreatorView {
                contact_status: ContactStatus::Contacted,
                contacted_at: written,
                ..c
            })
            &&& c.handle == handle && status == ContactStatus::Unselected ==> a == (CreatorView {
                contact_status: ContactStatus::Unselected,
                contact_priority_at: None,
                contacted_at: None,
                ..c
            })
        }),
        0 <= m < db.queue.len() ==> {
            let q = db.queue[m];
            let b = db.queue.map_values(creators::hurried(handle, status))[m];
            let first = q.handle == handle && status == ContactStatus::ToContact && (q.status
                == JobStatus::Pending || q.status == JobStatus::Retry);
            &&& first ==> b == (QueueView { manual_priority: true, ..q })
            &&& !first ==> b == q
        },
{
}

/// An address is valid exactly if something stands before its one `@`, and after it
/// stands a domain with a dot that is neither first nor last, and there is no white
/// space in it.
pub proof fn law_valid_addresses(local: Seq<char>, domain: Seq<char>)
    requires
        !local.contains('@'),
    ensures
        !creators::valid_email(local),
        creators::valid_email(local + seq!['@'] + domain) <==> {
            &&& local.len() > 0
            &&& domain.len() > 0
            &&& !domain.contains('@')
            &&& domain.contains('.')
            &&& domain[0] != '.'
            &&& domain.last() != '.'
            &&& forall|i: int| 0 <= i < local.len() ==> !text::is_white(#[trigger] local[i])
            &&& forall|i: int| 0 <= i < domain.len() ==> !text::is_white(#[trigger] domain[i])
        },
{
    let at = seq!['@'];
    if search::find(local, at) is Some {
        let i = choose|i: int| search::first_at(local, at, i);
        assert(search::occurs_at(local, at, i));
        assert(local.subrange(i, i + 1)[0] == at[0]);
        assert(local[i] == '@');
    }
    let s = local + at + domain;
    let n = local.len() as int;
    assert(s.subrange(n, n + 1) =~= at);
    assert(search::occurs_at(s, at, n));
    assert forall|j: int| 0 <= j < n implies !search::occurs_at(s, at, j) by {
        if search::occurs_at(s, at, j) {
            assert(s.subrange(j, j + 1)[0] == at[0]);
            assert(s[j] == local[j]);
            assert(local.contains('@'));
        }
    }
    search::lemma_first_at_is_find(s, at, n);
    assert(s.skip(n + 1) =~= domain);
    assert forall|i: int| 0 <= i < local.len() implies s[i] == #[trigger] local[i] by {}
    assert forall|i: int| 0 <= i < domain.len() implies s[n + 1 + i] == #[trigger] domain[i] by {}
    if (forall|i: int| 0 <= i < local.len() ==> !text::is_white(#[trigger] local[i])) && (forall|
        i: int,
    |
        0 <= i < domain.len() ==> !text::is_white(#[trigger] domain[i])) {
        assert forall|i: int| 0 <= i < s.len() implies !text::is_white(#[trigger] s[i]) by {
            if i < n {
                assert(s[i] == local[i]);
            } else if i > n {
                assert(s[i] == domain[i - n - 1]);
            } else {
                assert(s[i] == '@');
            }
        }
    }
    if forall|i: int| 0 <= i < s.len() ==> !text::is_white(#[trigger] s[i]) {
        assert forall|i: int| 0 <= i < local.len() implies !text::is_white(
            #[trigger] local[i],
        ) by {
            assert(s[i] == local[i]);
        }
        assert forall|i: int| 0 <= i < domain.len() implies !text::is_white(
            #[trigger] domain[i],
        ) by {
            assert(s[n + 1 + i] == domain[i]);
        }
    }
}

/// An address is asked for in lower case and without white space around it; a blank
/// one and the word `unknown` in any case ask for none.
pub proof fn law_wanted_address(given: Seq<char>)
    ensures
        creators::wanted_email(None) is None,
        ({
            let word = text::trim(given);
            let none = word.len() == 0 || text::lower(word) == text::lower("unknown"@);
            &&& none ==> creators::wanted_email(Some(given)) is None
            &&& !none ==> creators::wanted_email(Some(given)) == Some(text::lower(word))
        }),
{
}

/// Setting an address, a language or the outcome of a lookup changes those columns
/// of that creator only. The outcome of a lookup is the country in upper case and
/// without white space around it, the time, and the first thousand characters of
/// the error.
pub proof fn law_creator_columns_are_set(
    db: DatabaseView,
    handle: Seq<char>,
    email: Option<Seq<char>>,
    language: Seq<char>,
    country: Option<Seq<char>>,
    error: Option<Seq<char>>,
    now: Seq<char>,
    k: int,
)
    requires
        0 <= k < db.creators.len(),
    ensures
        ({
            let c = db.creators[k];
            let mailed = db.creators.map_values(creators::mailed(handle, email))[k];
            let speaking = db.creators.map_values(creators::speaking(handle, language))[k];
            let looked_up = db.creators.map_values(
                creators::looked_up(
                    handle,
                    creators::kept_country(country),
                    creators::kept_error(error),
                    now,
                ),
            )[k];
            &&& c.handle != handle ==> mailed == c && speaking == c && looked_up == c
            &&& c.handle == handle ==> mailed == (CreatorView { email: email, ..c })
            &&& c.handle == handle ==> speaking == (CreatorView { language_code: language, ..c })
            &&& c.handle == handle ==> looked_up == (CreatorView {
                country_code: looked_up.country_code,
                country_checked_at: Some(now),
                country_error: looked_up.country_error,
                ..c
            })
            &&& c.handle == handle && country is Some && text::trim(country->0).len() > 0
                ==> looked_up.country_code == Some(text::upper(text::trim(country->0)))
            &&& c.handle == handle && (country is None || text::trim(country->0).len() == 0)
                ==> looked_up.country_code is None
            &&& c.handle == handle && error is None ==> looked_up.country_error is None
            &&& c.handle == handle && error is Some && error->0.len() <= 1000
                ==> looked_up.country_error == error
            &&& c.handle == handle && error is Some && error->0.len() > 1000
                ==> looked_up.country_error == Some(error->0.take(1000))
        }),
{
}

/// The saved country of a creator becomes the market of the language, where the
/// language has one; else it is in upper case, and a code of two letters stands for
/// its market. A lookup that found no country is forgotten, and the rest of the row
/// stays.
pub proof fn law_saved_countries_in_order(c: CreatorView)
    ensures
        ({
            let a = creators::in_order(c);
            let forgotten = c.country_code is None && c.country_error == Some(
                "profile region was missing or invalid"@,
            );
            let home = filters::market_of_code(text::upper(c.language_code));
            &&& home is Some ==> a.country_code == home
            &&& home is None && c.country_code is None ==> a.country_code is None
            &&& home is None && c.country_code is Some && c.country_code->0.len() != 2
                ==> a.country_code == Some(text::upper(c.country_code->0))
            &&& home is None && c.country_code is Some && c.country_code->0.len() == 2 ==> {
                let code = text::upper(c.country_code->0);
                let pair = tiktok::market(code[0], code[1]);
                a.country_code == Some(seq![pair.0, pair.1])
            }
            &&& forgotten ==> a.country_checked_at is None && a.country_error is None
            &&& !forgotten ==> a.country_checked_at == c.country_checked_at && a.country_error
                == c.country_error
            &&& a == (CreatorView {
                country_code: a.country_code,
                country_checked_at: a.country_checked_at,
                country_error: a.country_error,
                ..c
            })
        }),
{
}

} // verus!
