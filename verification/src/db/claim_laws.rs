//! What holds of every job that a worker takes.

use vstd::prelude::*;
use crate::db::filter_laws;
use crate::db::joins;
use crate::db::joins::JoinedView;
use crate::db::outcomes;
use crate::db::queue;
use crate::db::queue::QueueClaimFilters;
use crate::db::rows;
use crate::db::rows::{AppPolicy, CreatorView, DatabaseView, JobStatus, QueueView};
use crate::db::table;
use crate::handles;
use crate::moment::ClockView;
use crate::order;
use crate::text;
use crate::text::CharClass;

verus! {

// ---------------------------------------------------------------------------
// What is known of a job
// ---------------------------------------------------------------------------
/// `c` is the creator that goes by the handle, if there is one.
pub open spec fn goes_by(
    creators: Seq<CreatorView>,
    handle: Option<Seq<char>>,
    c: Option<CreatorView>,
) -> bool {
    match c {
        Some(c) => handle == Some(c.handle) && creators.contains(c),
        None => forall|k: int|
            0 <= k < creators.len() ==> handle != Some((#[trigger] creators[k]).handle),
    }
}

pub proof fn lemma_creator_named(
    creators: Seq<CreatorView>,
    handle: Option<Seq<char>>,
    c: Option<CreatorView>,
)
    requires
        table::distinct_by(creators, rows::creator_key()),
        goes_by(creators, handle, c),
    ensures
        joins::creator_named(creators, handle) == c,
{
    if let Some(h) = handle {
        let p = rows::creator_is(h);
        match c {
            Some(found) => {
                let k = choose|k: int| 0 <= k < creators.len() && creators[k] == found;
                let key = rows::creator_key();
                assert forall|j: int| 0 <= j < k implies !p(#[trigger] creators[j]) by {
                    assert(key(creators[j]) != key(creators[k]));
                }
                assert(table::is_first(creators, p, k));
                table::lemma_first(creators, p, k);
            },
            None => {
                table::lemma_no_first(creators, p);
            },
        }
    }
}

/// The app of a job is the one that it expects, without spaces around it; where it
/// expects none, the app of the creator that it was found at; and where that is
/// not known either, the app of the job's own creator. Its language is that of the
/// creator that it was found at, else that of its own creator, and its country is
/// that of the creator that it was found at.
pub proof fn law_what_is_known_of_a_job(
    creators: Seq<CreatorView>,
    job: QueueView,
    source: Option<CreatorView>,
    own: Option<CreatorView>,
)
    requires
        table::distinct_by(creators, rows::creator_key()),
        goes_by(creators, job.discovered_from, source),
        goes_by(creators, Some(job.handle), own),
    ensures
        ({
            let expected = match job.expected_app_name {
                Some(t) => text::trim_both(t, CharClass::Only(' ')),
                None => Seq::empty(),
            };
            let app = joins::inferred_app(creators, job);
            &&& expected.len() > 0 ==> app == Some(expected)
            &&& expected.len() == 0 && source is Some && source->0.promoted_app_name is Some ==> app
                == source->0.promoted_app_name
            &&& expected.len() == 0 && !(source is Some && source->0.promoted_app_name is Some)
                && own is Some ==> app == own->0.promoted_app_name
            &&& expected.len() == 0 && !(source is Some && source->0.promoted_app_name is Some)
                && own is None ==> app is None
        }),
        ({
            let language = joins::inferred_language(creators, job);
            &&& source is Some ==> language == Some(source->0.language_code)
            &&& source is None && own is Some ==> language == Some(own->0.language_code)
            &&& source is None && own is None ==> language is None
        }),
        source is Some ==> joins::inferred_country(creators, job) == source->0.country_code,
        source is None ==> joins::inferred_country(creators, job) is None,
{
    lemma_creator_named(creators, job.discovered_from, source);
    lemma_creator_named(creators, Some(job.handle), own);
}

// ---------------------------------------------------------------------------
// Which jobs are asked for
// ---------------------------------------------------------------------------
/// The text, or the empty text.
pub open spec fn or_empty(t: Option<Seq<char>>) -> Seq<char> {
    match t {
        Some(t) => t,
        None => Seq::empty(),
    }
}

/// An app that goes by the name, in any case, has the policy; no policy where no
/// app goes by the name.
pub open spec fn policy_applies(
    db: DatabaseView,
    app: Option<Seq<char>>,
    policy: Option<AppPolicy>,
) -> bool {
    match policy {
        Some(p) => exists|k: int|
            0 <= k < db.apps.len() && text::lower((#[trigger] db.apps[k]).name) == text::lower(
                or_empty(app),
            ) && db.apps[k].policy == p,
        None => forall|k: int|
            0 <= k < db.apps.len() ==> text::lower((#[trigger] db.apps[k]).name) != text::lower(
                or_empty(app),
            ),
    }
}

/// The job waits, and its creator is not known.
pub open spec fn waits(db: DatabaseView, i: int) -> bool {
    &&& 0 <= i < db.queue.len()
    &&& db.queue[i].status == JobStatus::Pending || db.queue[i].status == JobStatus::Retry
    &&& forall|k: int|
        0 <= k < db.creators.len() ==> (#[trigger] db.creators[k]).handle != db.queue[i].handle
}

/// The language that is given, if any, is that of the job but for case; `all` and
/// blank texts ask for every language.
pub open spec fn language_fits(given: Option<String>, language: Option<Seq<char>>) -> bool {
    match given {
        Some(t) => {
            let word = text::lower(text::trim(t@));
            text::trim(t@).len() == 0 || word == text::lower("all"@) || word == text::lower(
                or_empty(language),
            )
        },
        None => true,
    }
}

/// The app that is given, if any, is that of the job but for case; the words for
/// no app in particular and blank texts ask for every app.
pub open spec fn app_fits(given: Option<String>, app: Option<Seq<char>>) -> bool {
    match given {
        Some(t) => {
            let word = text::lower(text::trim(t@));
            text::trim(t@).len() == 0 || word == text::lower("all"@) || word == text::lower(
                "all apps"@,
            ) || word == text::lower("__with_app__"@) || word == text::lower("__no_app__"@) || word
                == text::lower(or_empty(app))
        },
        None => true,
    }
}

/// A job with the handle, app, language and country fits the filters as they are
/// given, where its app has the policy.
pub open spec fn fits(
    f: QueueClaimFilters,
    handle: Seq<char>,
    app: Option<Seq<char>>,
    language: Option<Seq<char>>,
    country: Option<Seq<char>>,
    policy: Option<AppPolicy>,
) -> bool {
    &&& filter_laws::no_handle_asked(f.handles@) && policy != Some(AppPolicy::Blacklist)
        || filter_laws::handle_asked(f.handles@, handle)
    &&& language_fits(f.language_code, language)
    &&& app_fits(f.app_name, app)
    &&& filter_laws::nothing_asked(f.app_names@) || filter_laws::asked(f.app_names@, or_empty(app))
    &&& filter_laws::nothing_asked(f.country_codes@) || filter_laws::asked(
        f.country_codes@,
        or_empty(country),
    )
    &&& f.whitelist_only ==> policy == Some(AppPolicy::Whitelist) || !filter_laws::nothing_asked(
        f.app_names@,
    )
}

proof fn lemma_fits(f: QueueClaimFilters, j: JoinedView)
    ensures
        queue::may_claim(f@, j) <==> (j.row.status == JobStatus::Pending || j.row.status
            == JobStatus::Retry) && fits(f, j.row.handle, j.app, j.language, j.country, j.policy),
{
    let app = or_empty(j.app);
    let country = or_empty(j.country);
    let language = or_empty(j.language);
    filter_laws::lemma_handles_asked(f.handles@, j.row.handle);
    filter_laws::law_values_ask_for_what_is_given(f.app_names@, app);
    filter_laws::law_values_ask_for_what_is_given(f.country_codes@, country);
    if let Some(l) = f.language_code {
        filter_laws::law_language_filter(l@);
        filter_laws::lemma_same_upper(text::trim(l@), language);
    }
    if let Some(a) = f.app_name {
        filter_laws::law_app_filter(a@);
    }
    assert(f@.handles.len() > 0 ==> !filter_laws::no_handle_asked(f.handles@));
    if filter_laws::no_handle_asked(f.handles@) {
        assert(!filter_laws::handle_asked(f.handles@, j.row.handle));
    }
    assert(f@.countries.contains(text::upper(country)) <==> filter_laws::asked(
        f.country_codes@,
        country,
    ));
}

/// Policies apply to an app exactly as the table of apps says.
pub proof fn lemma_policies(db: DatabaseView, app: Option<Seq<char>>, policy: Option<AppPolicy>)
    ensures
        joins::policies(db.apps, joins::or_blank(app)).contains(policy) <==> policy_applies(
            db,
            app,
            policy,
        ),
{
    let name = joins::or_blank(app);
    let p = joins::app_called(name);
    let called = db.apps.filter(p);
    let all = joins::policies(db.apps, name);
    table::lemma_filter_members(db.apps, p);
    if called.len() == 0 {
        assert(all[0] == None::<AppPolicy>);
        assert forall|k: int| 0 <= k < db.apps.len() implies text::lower(
            (#[trigger] db.apps[k]).name,
        ) != text::lower(name) by {
            if p(db.apps[k]) {
                db.apps.lemma_filter_contains(p, k);
            }
        }
        assert(all.contains(None));
    } else {
        assert(db.apps.contains(called[0]));
        let m = choose|m: int| 0 <= m < db.apps.len() && db.apps[m] == called[0];
        assert(p(db.apps[m]));
        if all.contains(policy) {
            let n = choose|n: int| 0 <= n < all.len() && all[n] == policy;
            assert(all[n] == Some(called[n].policy));
            assert(db.apps.contains(called[n]));
            let k = choose|k: int| 0 <= k < db.apps.len() && db.apps[k] == called[n];
            assert(p(db.apps[k]));
        }
        if policy is Some && policy_applies(db, app, policy) {
            let k = choose|k: int|
                0 <= k < db.apps.len() && text::lower((#[trigger] db.apps[k]).name) == text::lower(
                    or_empty(app),
                ) && db.apps[k].policy == policy->0;
            assert(p(db.apps[k]));
            db.apps.lemma_filter_contains(p, k);
            let n = choose|n: int| 0 <= n < called.len() && called[n] == db.apps[k];
            assert(all[n] == policy);
        }
    }
}

/// A job that waits is not changed before jobs are taken.
proof fn lemma_waiting_stays(db: DatabaseView, clock: ClockView, i: int)
    requires
        waits(db, i),
    ensures
        queue::refreshed(db, clock).len() == db.queue.len(),
        queue::refreshed(db, clock)[i] == db.queue[i],
{
    let one = db.queue.map_values(queue::reconciled(db.creators, clock.now));
    if rows::has_creator(db.creators, db.queue[i].handle) {
        let k = choose|k: int|
            0 <= k < db.creators.len() && rows::creator_is(db.queue[i].handle)(
                #[trigger] db.creators[k],
            );
        assert(db.creators[k].handle == db.queue[i].handle);
    }
    assert(one[i] == db.queue[i]);
    assert(queue::refreshed(db, clock)[i] == queue::reclaimed(clock.stale_before)(one[i]));
}

/// Where a job waits that fits the filters under a policy of its app, a job is
/// taken, and no job goes before it that fits: one that was put first by hand goes
/// before those that were not, then one whose app is on the white list before
/// those whose app is not, then one that was found earlier.
pub proof fn law_job_that_fits_is_taken(
    db: DatabaseView,
    f: QueueClaimFilters,
    clock: ClockView,
    i: int,
    policy: Option<AppPolicy>,
)
    requires
        waits(db, i),
        policy_applies(db, joins::inferred_app(db.creators, db.queue[i]), policy),
        fits(
            f,
            db.queue[i].handle,
            joins::inferred_app(db.creators, db.queue[i]),
            joins::inferred_language(db.creators, db.queue[i]),
            joins::inferred_country(db.creators, db.queue[i]),
            policy,
        ),
    ensures
        queue::next_job(db, f@, clock) is Some,
        ({
            let first = queue::claim_order(db, f@, clock)[0];
            let mine = db.queue[i];
            let white = policy == Some(AppPolicy::Whitelist);
            let first_white = first.policy == Some(AppPolicy::Whitelist);
            &&& queue::next_job(db, f@, clock) == Some(first.row)
            &&& mine.manual_priority ==> first.row.manual_priority
            &&& mine.manual_priority == first.row.manual_priority && white ==> first_white
            &&& mine.manual_priority == first.row.manual_priority && white == first_white
                ==> !order::before(mine.found_at, first.row.found_at)
        }),
{
    let q = db.queue[i];
    let app = joins::inferred_app(db.creators, q);
    lemma_waiting_stays(db, clock, i);
    lemma_policies(db, app, policy);
    let j = joins::joined_job(db.creators, q, policy);
    joins::lemma_joined_complete(db.apps, db.creators, queue::refreshed(db, clock), i, policy);
    lemma_fits(f, j);
    outcomes::law_claim_takes_turns(db, f@, clock, j);
}

/// A job that is taken is one of the queue, of a creator that is not known, that
/// waits or whose worker did not come back; it fits the filters under the policy
/// that it is taken under, which is one of its app.
pub proof fn law_taken_job_fits(db: DatabaseView, f: QueueClaimFilters, clock: ClockView) -> (i: int)
    requires
        db.wf(),
        queue::next_job(db, f@, clock) is Some,
    ensures
        0 <= i < db.queue.len(),
        ({
            let row = queue::next_job(db, f@, clock)->0;
            let q = db.queue[i];
            let policy = queue::claim_order(db, f@, clock)[0].policy;
            &&& row.handle == q.handle
            &&& row.attempts == q.attempts
            &&& row.found_at == q.found_at
            &&& row.manual_priority == q.manual_priority
            &&& q.status == JobStatus::Pending || q.status == JobStatus::Retry || q.status
                == JobStatus::Processing && q.attempts < 3 && q.locked_at is Some && order::before(
                q.locked_at->0,
                clock.stale_before,
            )
            &&& forall|k: int|
                0 <= k < db.creators.len() ==> (#[trigger] db.creators[k]).handle != q.handle
            &&& policy_applies(db, joins::inferred_app(db.creators, q), policy)
            &&& fits(
                f,
                q.handle,
                joins::inferred_app(db.creators, q),
                joins::inferred_language(db.creators, q),
                joins::inferred_country(db.creators, q),
                policy,
            )
        }),
{
    outcomes::law_claimed_job_is_admitted(db, f@, clock);
    let job = queue::claim_order(db, f@, clock)[0];
    let now_rows = queue::refreshed(db, clock);
    let all = joins::joined(db.apps, db.creators, now_rows);
    joins::lemma_joined_members(db.apps, db.creators, now_rows);
    queue::lemma_chosen_members(
        all,
        queue::claimable(f@),
        queue::turn_key(),
        queue::turn_directions(),
    );
    assert(all.contains(job));
    let m = choose|m: int| 0 <= m < all.len() && all[m] == job;
    assert(now_rows.contains(all[m].row));
    let i = choose|i: int| 0 <= i < now_rows.len() && now_rows[i] == job.row;
    let one = db.queue.map_values(queue::reconciled(db.creators, clock.now));
    assert(one[i] == queue::reconciled(db.creators, clock.now)(db.queue[i]));
    assert(now_rows[i] == queue::reclaimed(clock.stale_before)(one[i]));
    let q = db.queue[i];
    assert(joins::inferred_app(db.creators, q) == joins::inferred_app(db.creators, job.row));
    assert(joins::inferred_language(db.creators, q) == joins::inferred_language(
        db.creators,
        job.row,
    ));
    assert(joins::inferred_country(db.creators, q) == joins::inferred_country(
        db.creators,
        job.row,
    ));
    lemma_policies(db, joins::inferred_app(db.creators, q), job.policy);
    lemma_fits(f, job);
    assert forall|k: int| 0 <= k < db.creators.len() implies (#[trigger] db.creators[k]).handle
        != q.handle by {
        if db.creators[k].handle == q.handle {
            assert(rows::creator_is(q.handle)(db.creators[k]));
        }
    }
    i
}

/// Where only apps on the white list are asked for, a job that waits and whose app
/// is on the white list may be taken, and what is taken is a job whose app is on
/// the white list.
pub proof fn law_whitelist_run_takes_whitelisted_jobs(
    db: DatabaseView,
    f: QueueClaimFilters,
    clock: ClockView,
    i: int,
    k: int,
)
    requires
        db.wf(),
        f.whitelist_only,
        f.app_names@.len() == 0,
        f.handles@.len() == 0,
        f.country_codes@.len() == 0,
        f.language_code is None,
        f.app_name is None,
        waits(db, i),
        0 <= k < db.apps.len(),
        joins::inferred_app(db.creators, db.queue[i]) is Some,
        text::lower(db.apps[k].name) == text::lower(
            joins::inferred_app(db.creators, db.queue[i])->0,
        ),
        db.apps[k].policy == AppPolicy::Whitelist,
    ensures
        queue::next_job(db, f@, clock) is Some,
        ({
            let row = queue::next_job(db, f@, clock)->0;
            exists|n: int|
                0 <= n < db.apps.len() && (#[trigger] db.apps[n]).policy == AppPolicy::Whitelist
                    && text::lower(db.apps[n].name) == text::lower(
                    or_empty(joins::inferred_app(db.creators, row)),
                )
        }),
{
    law_job_that_fits_is_taken(db, f, clock, i, Some(AppPolicy::Whitelist));
    let t = law_taken_job_fits(db, f, clock);
    outcomes::law_claimed_job_is_admitted(db, f@, clock);
    let row = queue::next_job(db, f@, clock)->0;
    let policy = queue::claim_order(db, f@, clock)[0].policy;
    assert(policy == Some(AppPolicy::Whitelist));
    lemma_taken_app(db, f, clock);
    assert(policy_applies(db, joins::inferred_app(db.creators, row), policy));
}

proof fn lemma_taken_app(db: DatabaseView, f: QueueClaimFilters, clock: ClockView)
    requires
        db.wf(),
        queue::next_job(db, f@, clock) is Some,
    ensures
        policy_applies(
            db,
            joins::inferred_app(db.creators, queue::next_job(db, f@, clock)->0),
            queue::claim_order(db, f@, clock)[0].policy,
        ),
{
    let job = queue::claim_order(db, f@, clock)[0];
    let now_rows = queue::refreshed(db, clock);
    let all = joins::joined(db.apps, db.creators, now_rows);
    joins::lemma_joined_members(db.apps, db.creators, now_rows);
    queue::lemma_chosen_members(
        all,
        queue::claimable(f@),
        queue::turn_key(),
        queue::turn_directions(),
    );
    assert(all.contains(job));
    let m = choose|m: int| 0 <= m < all.len() && all[m] == job;
    assert(all[m] == joins::joined_job(db.creators, all[m].row, all[m].policy));
    lemma_policies(db, joins::inferred_app(db.creators, job.row), job.policy);
}

/// Where nothing is asked for, a job that waits is taken unless every policy of
/// its app is the black list, and no job is taken under the black list.
pub proof fn law_open_run_leaves_out_the_blacklist(
    db: DatabaseView,
    f: QueueClaimFilters,
    clock: ClockView,
    i: int,
    policy: Option<AppPolicy>,
)
    requires
        db.wf(),
        !f.whitelist_only,
        f.app_names@.len() == 0,
        f.handles@.len() == 0,
        f.country_codes@.len() == 0,
        f.language_code is None,
        f.app_name is None,
    ensures
        waits(db, i) && policy != Some(AppPolicy::Blacklist) && policy_applies(
            db,
            joins::inferred_app(db.creators, db.queue[i]),
            policy,
        ) ==> queue::next_job(db, f@, clock) is Some,
        queue::next_job(db, f@, clock) is Some ==> queue::claim_order(db, f@, clock)[0].policy
            != Some(AppPolicy::Blacklist),
{
    if waits(db, i) && policy != Some(AppPolicy::Blacklist) && policy_applies(
        db,
        joins::inferred_app(db.creators, db.queue[i]),
        policy,
    ) {
        law_job_that_fits_is_taken(db, f, clock, i, policy);
    }
    if queue::next_job(db, f@, clock) is Some {
        let t = law_taken_job_fits(db, f, clock);
    }
}

// ---------------------------------------------------------------------------
// What taking a job changes
// ---------------------------------------------------------------------------
/// Taking a job puts it into work: one try is counted, the time is noted, and the
/// last error is forgotten. Jobs of known creators are done; jobs whose worker did
/// not come back wait again, or have failed for good after the third try. What was
/// noted when a job was put in never changes, nor does any other table.
pub proof fn law_claim_changes(db: DatabaseView, f: QueueClaimFilters, clock: ClockView, i: int)
    requires
        db.wf(),
        0 <= i < db.queue.len(),
    ensures
        ({
            let after = queue::claimed(db, f@, clock);
            let q = db.queue[i];
            let a = after.queue[i];
            let known = exists|k: int|
                0 <= k < db.creators.len() && (#[trigger] db.creators[k]).handle == q.handle;
            let stale = q.status == JobStatus::Processing && q.locked_at is Some && order::before(
                q.locked_at->0,
                clock.stale_before,
            );
            let taken = queue::next_job(db, f@, clock) is Some && queue::next_job(
                db,
                f@,
                clock,
            )->0.handle == q.handle;
            &&& after.queue.len() == db.queue.len()
            &&& a.handle == q.handle
            &&& a.found_at == q.found_at
            &&& a.discovered_from == q.discovered_from
            &&& a.expected_app_name == q.expected_app_name
            &&& a.manual_priority == q.manual_priority
            &&& taken ==> a.status == JobStatus::Processing && a.attempts == (q.attempts + 1) as u32
                && a.locked_at == Some(clock.now) && a.last_error is None && a.scraped_at
                == q.scraped_at && !known
            &&& !taken ==> a.attempts == q.attempts
            &&& known && q.status != JobStatus::Done ==> a.status == JobStatus::Done && a.locked_at
                is None && a.last_error == q.last_error && a.scraped_at == (
            if q.scraped_at is Some {
                q.scraped_at
            } else {
                Some(clock.now)
            })
            &&& !taken && !known && stale ==> a.status == (if q.attempts >= 3 {
                JobStatus::Failed
            } else {
                JobStatus::Retry
            }) && a.locked_at is None && a.scraped_at == q.scraped_at && a.last_error == (
            if q.last_error is Some {
                q.last_error
            } else {
                Some("stale processing lock reclaimed"@)
            })
            &&& !taken && !known && !stale ==> a == q
            &&& q.status == JobStatus::Done ==> a == q
            &&& after == (DatabaseView { queue: after.queue, ..db })
        }),
{
    let after = queue::claimed(db, f@, clock);
    let one = db.queue.map_values(queue::reconciled(db.creators, clock.now));
    let two = queue::refreshed(db, clock);
    let q = db.queue[i];
    assert(one[i] == queue::reconciled(db.creators, clock.now)(q));
    assert(two[i] == queue::reclaimed(clock.stale_before)(one[i]));
    let known = exists|k: int|
        0 <= k < db.creators.len() && (#[trigger] db.creators[k]).handle == q.handle;
    assert(known <==> rows::has_creator(db.creators, q.handle)) by {
        if known {
            let k = choose|k: int|
                0 <= k < db.creators.len() && (#[trigger] db.creators[k]).handle == q.handle;
            assert(rows::creator_is(q.handle)(db.creators[k]));
        }
        if rows::has_creator(db.creators, q.handle) {
            let k = choose|k: int|
                0 <= k < db.creators.len() && rows::creator_is(q.handle)(#[trigger] db.creators[k]);
            assert(db.creators[k].handle == q.handle);
        }
    }
    if queue::next_job(db, f@, clock) is Some {
        let row = queue::next_job(db, f@, clock)->0;
        let t = law_taken_job_fits(db, f, clock);
        assert(after.queue[i] == queue::taken(row.handle, clock.now)(two[i]));
        if row.handle == q.handle {
            let key = rows::job_key();
            if t < i {
                assert(key(db.queue[t]) != key(db.queue[i]));
            }
            if i < t {
                assert(key(db.queue[i]) != key(db.queue[t]));
            }
        }
    }
}

} // verus!
