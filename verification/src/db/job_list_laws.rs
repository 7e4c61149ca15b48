//! What lists of jobs show, over the columns of their rows.

use vstd::prelude::*;
use crate::db::claim_laws;
use crate::db::creator_lists;
use crate::db::filter_laws;
use crate::db::filters;
use crate::db::items::{QueueSourceViewItem, QueueViewItem, StatusCountView};
use crate::db::joins;
use crate::db::list_laws;
use crate::db::listing;
use crate::db::outcomes;
use crate::db::queue;
use crate::db::rows;
use crate::db::rows::{
    AppPolicy, CreatorView, Database, DatabaseView, JobStatus, QueueView,
};
use crate::db::sources;
use crate::db::sources::{FoundView, GroupView, SourceKey};
use crate::db::table;
use crate::lists;
use crate::models;
use crate::models::QueueItem;
use crate::order;
use crate::ranking;
use crate::ranking::SortView;
use crate::text;
use crate::text::CharClass;

verus! {

// ---------------------------------------------------------------------------
// Words
// ---------------------------------------------------------------------------
/// The word for a status.
pub open spec fn status_word(status: JobStatus) -> Seq<char> {
    match status {
        JobStatus::Pending => "pending"@,
        JobStatus::Retry => "retry"@,
        JobStatus::Processing => "processing"@,
        JobStatus::Done => "done"@,
        JobStatus::Failed => "failed"@,
        JobStatus::Excluded => "excluded"@,
    }
}

/// The status that is given, if any, is that of the job; a blank text asks for
/// every status.
pub open spec fn status_fits(given: Option<&str>, status: JobStatus) -> bool {
    given is Some && text::trim(given->0@).len() > 0 ==> text::trim(given->0@) == status_word(status)
}

/// The language that is given, if any, is that of the job but for case.
pub open spec fn language_fits(given: Option<&str>, language: Option<Seq<char>>) -> bool {
    given is Some ==> {
        let word = text::lower(text::trim(given->0@));
        text::trim(given->0@).len() == 0 || word == text::lower("all"@) || word == text::lower(
            claim_laws::or_empty(language),
        )
    }
}

/// The app that is given, if any, is that of the job but for case.
pub open spec fn app_fits(given: Option<&str>, app: Option<Seq<char>>) -> bool {
    given is Some ==> {
        let word = text::lower(text::trim(given->0@));
        text::trim(given->0@).len() == 0 || word == text::lower("all"@) || word == text::lower(
            "all apps"@,
        ) || word == text::lower("__with_app__"@) || word == text::lower("__no_app__"@) || word
            == text::lower(claim_laws::or_empty(app))
    }
}

/// The job is one of those that are asked for.
pub open spec fn job_fits(
    status: Option<&str>,
    language: Option<&str>,
    app: Option<&str>,
    creators: Seq<CreatorView>,
    q: QueueView,
) -> bool {
    &&& status_fits(status, q.status)
    &&& language_fits(language, joins::inferred_language(creators, q))
    &&& app_fits(app, joins::inferred_app(creators, q))
}

proof fn lemma_job_fits(
    status: Option<&str>,
    language: Option<&str>,
    app: Option<&str>,
    creators: Seq<CreatorView>,
    q: QueueView,
    policy: Option<AppPolicy>,
)
    ensures
        ({
            let s = models::non_blank(filters::opt_str(status));
            let l = filters::language_filter(filters::opt_str(language));
            let a = filters::app_filter(filters::opt_str(app));
            &&& listing::is_shown(s, l, a, creators, q) <==> job_fits(
                status,
                language,
                app,
                creators,
                q,
            )
            &&& listing::shown(s, l, a)(joins::joined_job(creators, q, policy)) <==> job_fits(
                status,
                language,
                app,
                creators,
                q,
            )
        }),
{
    assert(q.status.text() == status_word(q.status));
    if let Some(t) = language {
        filter_laws::law_language_filter(t@);
        filter_laws::lemma_same_upper(
            text::trim(t@),
            claim_laws::or_empty(joins::inferred_language(creators, q)),
        );
    }
    if let Some(t) = app {
        filter_laws::law_app_filter(t@);
    }
}

// ---------------------------------------------------------------------------
// Jobs with what is known of them
// ---------------------------------------------------------------------------
/// A list of jobs is at most as long as is asked for and as a thousand. What it
/// shows are the columns of one job that is asked for, with the app, the language
/// and the country that are known of it and the policy of the app.
pub proof fn law_listed_jobs_fit(
    db: Database,
    status: Option<&str>,
    language: Option<&str>,
    app: Option<&str>,
    limit: usize,
    offset: usize,
    r: Seq<QueueViewItem>,
    i: int,
) -> (k: int)
    requires
        table::views(r) == table::page(
            listing::jobs_shown(
                db@,
                models::non_blank(filters::opt_str(status)),
                filters::language_filter(filters::opt_str(language)),
                filters::app_filter(filters::opt_str(app)),
            ),
            listing::at_most(limit, listing::LIST_LIMIT),
            listing::skipped(offset),
        ).map_values(listing::job_shown()),
        0 <= i < r.len(),
    ensures
        r.len() <= limit,
        r.len() <= 1000,
        0 <= k < db.queue@.len(),
        job_fits(status, language, app, db@.creators, db@.queue[k]),
        ({
            let row = db.queue@[k];
            let item = r[i];
            let known_app = joins::inferred_app(db@.creators, db@.queue[k]);
            &&& item.handle@ == row.handle@
            &&& models::opt_text(item.discovered_from) == models::opt_text(row.discovered_from)
            &&& item.found_at@ == row.found_at@
            &&& item.status == row.status
            &&& item.attempts == row.attempts
            &&& models::opt_text(item.last_error) == models::opt_text(row.last_error)
            &&& models::opt_text(item.expected_app_name) == models::opt_text(row.expected_app_name)
            &&& models::opt_text(item.inferred_app_name) == known_app
            &&& models::opt_text(item.inferred_language_code) == joins::inferred_language(
                db@.creators,
                db@.queue[k],
            )
            &&& models::opt_text(item.inferred_country_code) == joins::inferred_country(
                db@.creators,
                db@.queue[k],
            )
            &&& claim_laws::policy_applies(db@, known_app, Some(item.app_policy)) || (item.app_policy
                == AppPolicy::Neutral && claim_laws::policy_applies(db@, known_app, None))
        }),
{
    let s = models::non_blank(filters::opt_str(status));
    let l = filters::language_filter(filters::opt_str(language));
    let a = filters::app_filter(filters::opt_str(app));
    let joined = joins::joined(db@.apps, db@.creators, db@.queue);
    let all = listing::jobs_shown(db@, s, l, a);
    let length = listing::at_most(limit, listing::LIST_LIMIT);
    let skip = listing::skipped(offset);
    assert(r.len() == table::views(r).len());
    assert(table::views(r)[i] == r[i]@);
    list_laws::lemma_page(all, length, skip, i);
    queue::lemma_chosen_members(
        joined,
        listing::shown(s, l, a),
        queue::turn_key(),
        queue::turn_directions(),
    );
    joins::lemma_joined_members(db@.apps, db@.creators, db@.queue);
    let j = all[skip + i];
    assert(joined.contains(j));
    let m = choose|m: int| 0 <= m < joined.len() && joined[m] == j;
    assert(db@.queue.contains(joined[m].row));
    let k = choose|k: int| 0 <= k < db@.queue.len() && db@.queue[k] == j.row;
    assert(db@.queue[k] == db.queue@[k]@);
    lemma_job_fits(status, language, app, db@.creators, j.row, j.policy);
    claim_laws::lemma_policies(db@, j.app, j.policy);
    assert(r[i]@ == listing::job_shown()(j));
    k
}

/// Jobs stand in the order in which they are taken.
pub proof fn law_listed_jobs_are_in_turn(
    db: DatabaseView,
    status: Option<Seq<char>>,
    language: Option<Seq<char>>,
    app: Option<Seq<char>>,
    i: int,
    j: int,
)
    requires
        0 <= i < j < listing::jobs_shown(db, status, language, app).len(),
    ensures
        ({
            let a = listing::jobs_shown(db, status, language, app)[i];
            let b = listing::jobs_shown(db, status, language, app)[j];
            !outcomes::goes_before(b, a)
        }),
{
    let joined = joins::joined(db.apps, db.creators, db.queue);
    let key = queue::turn_key();
    let down = queue::turn_directions();
    let all = listing::jobs_shown(db, status, language, app);
    list_laws::lemma_chosen_in_order(
        joined,
        listing::shown(status, language, app),
        key,
        down,
        i,
        j,
    );
    reveal_with_fuel(ranking::key_before, 4);
    let a = all[i];
    let b = all[j];
    order::lemma_before_irreflexive(a.row.found_at);
    assert(key(a)[2] == SortView::Text(a.row.found_at));
    assert(key(b)[2] == SortView::Text(b.row.found_at));
    if outcomes::goes_before(b, a) {
        assert(ranking::key_before(key(b), key(a), down, 0));
    }
}

/// A job that is asked for is listed under each policy of its app.
pub proof fn law_jobs_that_fit_are_listed(
    db: DatabaseView,
    status: Option<&str>,
    language: Option<&str>,
    app: Option<&str>,
    k: int,
    policy: Option<AppPolicy>,
)
    requires
        0 <= k < db.queue.len(),
        job_fits(status, language, app, db.creators, db.queue[k]),
        claim_laws::policy_applies(db, joins::inferred_app(db.creators, db.queue[k]), policy),
    ensures
        exists|i: int|
            #![trigger listing::jobs_shown(
                db,
                models::non_blank(filters::opt_str(status)),
                filters::language_filter(filters::opt_str(language)),
                filters::app_filter(filters::opt_str(app)),
            )[i]]
            {
                let all = listing::jobs_shown(
                    db,
                    models::non_blank(filters::opt_str(status)),
                    filters::language_filter(filters::opt_str(language)),
                    filters::app_filter(filters::opt_str(app)),
                );
                0 <= i < all.len() && all[i].row == db.queue[k] && all[i].policy == policy
            },
{
    let s = models::non_blank(filters::opt_str(status));
    let l = filters::language_filter(filters::opt_str(language));
    let a = filters::app_filter(filters::opt_str(app));
    let joined = joins::joined(db.apps, db.creators, db.queue);
    let p = listing::shown(s, l, a);
    let want = joins::joined_job(db.creators, db.queue[k], policy);
    claim_laws::lemma_policies(db, joins::inferred_app(db.creators, db.queue[k]), policy);
    joins::lemma_joined_complete(db.apps, db.creators, db.queue, k, policy);
    lemma_job_fits(status, language, app, db.creators, db.queue[k], policy);
    let m = choose|m: int| 0 <= m < joined.len() && joined[m] == want;
    joined.lemma_filter_contains(p, m);
    let hits = joined.filter(p);
    let n = choose|n: int| 0 <= n < hits.len() && hits[n] == want;
    let keys = hits.map_values(queue::turn_key());
    ranking::lemma_ranking(keys, queue::turn_directions());
    let places = ranking::ranking(keys, queue::turn_directions());
    assert(places.contains(n));
    let at = choose|at: int| 0 <= at < places.len() && places[at] == n;
    assert(listing::jobs_shown(db, s, l, a)[at] == want);
}

/// The jobs that are counted are those that are asked for.
pub proof fn law_count_is_of_jobs_that_fit(
    db: DatabaseView,
    status: Option<&str>,
    language: Option<&str>,
    app: Option<&str>,
)
    ensures
        lists::count(
            db.queue,
            listing::row_shown(
                models::non_blank(filters::opt_str(status)),
                filters::language_filter(filters::opt_str(language)),
                filters::app_filter(filters::opt_str(app)),
                db.creators,
            ),
        ) == db.queue.filter(
            |q: QueueView| job_fits(status, language, app, db.creators, q),
        ).len(),
{
    let s = models::non_blank(filters::opt_str(status));
    let l = filters::language_filter(filters::opt_str(language));
    let a = filters::app_filter(filters::opt_str(app));
    let p = listing::row_shown(s, l, a, db.creators);
    let q = |q: QueueView| job_fits(status, language, app, db.creators, q);
    assert forall|v: QueueView| #[trigger] p(v) == q(v) by {
        lemma_job_fits(status, language, app, db.creators, v, None);
    }
    assert(p =~= q);
}

// ---------------------------------------------------------------------------
// Plain jobs
// ---------------------------------------------------------------------------
/// A plain list shows the columns of jobs with the status that is asked for, at
/// most as many as are asked for and a thousand. Jobs with an expected app come
/// first, then those that were found earlier.
pub proof fn law_plain_list_of_jobs(
    db: Database,
    status: Option<&str>,
    limit: usize,
    r: Seq<QueueItem>,
    i: int,
) -> (k: int)
    requires
        table::views(r) == table::page(
            table::chosen(
                db@.queue,
                listing::with_status(filters::opt_str(status)),
                listing::plain_key(),
                seq![false, false],
            ),
            listing::at_most(limit, listing::LIST_LIMIT),
            0,
        ).map_values(listing::plain_shown()),
        0 <= i < r.len(),
    ensures
        r.len() <= limit,
        r.len() <= 1000,
        0 <= k < db.queue@.len(),
        status is Some ==> status->0@ == status_word(db.queue@[k].status),
        ({
            let row = db.queue@[k];
            let item = r[i];
            &&& item.handle@ == row.handle@
            &&& models::opt_text(item.discovered_from) == models::opt_text(row.discovered_from)
            &&& item.found_at@ == row.found_at@
            &&& item.status@ == status_word(row.status)
            &&& item.attempts == row.attempts
            &&& models::opt_text(item.last_error) == models::opt_text(row.last_error)
        }),
{
    let p = listing::with_status(filters::opt_str(status));
    let all = table::chosen(db@.queue, p, listing::plain_key(), seq![false, false]);
    let length = listing::at_most(limit, listing::LIST_LIMIT);
    assert(r.len() == table::views(r).len());
    assert(table::views(r)[i] == r[i]@);
    list_laws::lemma_page(all, length, 0, i);
    queue::lemma_chosen_members(db@.queue, p, listing::plain_key(), seq![false, false]);
    assert(db@.queue.contains(all[i]) && p(all[i]));
    let k = choose|k: int| 0 <= k < db@.queue.len() && db@.queue[k] == all[i];
    assert(db@.queue[k] == db.queue@[k]@);
    assert(all[i].status.text() == status_word(all[i].status));
    k
}

/// Something other than spaces stands in the column.
pub open spec fn filled(column: Option<Seq<char>>) -> bool {
    column is Some && text::trim_both(column->0, CharClass::Only(' ')).len() > 0
}

/// In a plain list, jobs with an expected app come first, then those that were
/// found earlier.
pub proof fn law_plain_list_is_in_order(
    jobs: Seq<QueueView>,
    status: Option<Seq<char>>,
    i: int,
    j: int,
)
    requires
        0 <= i < j < table::chosen(
            jobs,
            listing::with_status(status),
            listing::plain_key(),
            seq![false, false],
        ).len(),
    ensures
        ({
            let all = table::chosen(
                jobs,
                listing::with_status(status),
                listing::plain_key(),
                seq![false, false],
            );
            let a = all[i];
            let b = all[j];
            &&& filled(b.expected_app_name) ==> filled(a.expected_app_name)
            &&& filled(b.expected_app_name) == filled(a.expected_app_name) ==> !order::before(
                b.found_at,
                a.found_at,
            )
        }),
{
    let p = listing::with_status(status);
    let key = listing::plain_key();
    let down = seq![false, false];
    let all = table::chosen(jobs, p, key, down);
    list_laws::lemma_chosen_in_order(jobs, p, key, down, i, j);
    reveal_with_fuel(ranking::key_before, 3);
    let a = all[i];
    let b = all[j];
    assert(key(a)[1] == SortView::Text(a.found_at));
    assert(key(b)[1] == SortView::Text(b.found_at));
    order::lemma_before_irreflexive(a.found_at);
    assert(filled(a.expected_app_name) == (joins::unspaced(a.expected_app_name) is Some));
    assert(filled(b.expected_app_name) == (joins::unspaced(b.expected_app_name) is Some));
}

// ---------------------------------------------------------------------------
// States
// ---------------------------------------------------------------------------
/// Each status that occurs is counted once, with the number of rows that have it,
/// and no other is.
pub proof fn law_states_are_counted(all: Seq<JobStatus>, s: JobStatus, n: usize)
    requires
        all.len() <= usize::MAX,
    ensures
        listing::status_counts(all).contains(StatusCountView { status: s, count: n }) <==> n > 0
            && n == all.filter(|t: JobStatus| t == s).len(),
{
    let names = listing::statuses_by_name();
    let found = names.map_values(|s: JobStatus| listing::counted(all, s));
    let want = StatusCountView { status: s, count: n };
    lists::lemma_present_members(found);
    assert(listing::status_is(s) =~= (|t: JobStatus| t == s));
    all.lemma_filter_len(listing::status_is(s));
    assert(names.len() == 6);
    assert(names[0] == JobStatus::Done && names[1] == JobStatus::Excluded && names[2]
        == JobStatus::Failed && names[3] == JobStatus::Pending && names[4]
        == JobStatus::Processing && names[5] == JobStatus::Retry);
    if listing::status_counts(all).contains(want) {
        assert(found.contains(Some(want)));
        let i = choose|i: int| 0 <= i < found.len() && found[i] == Some(want);
        assert(found[i] == listing::counted(all, names[i]));
    }
    if n > 0 && n == all.filter(listing::status_is(s)).len() {
        let i: int = match s {
            JobStatus::Done => 0,
            JobStatus::Excluded => 1,
            JobStatus::Failed => 2,
            JobStatus::Pending => 3,
            JobStatus::Processing => 4,
            JobStatus::Retry => 5,
        };
        assert(names[i] == s);
        assert(found[i] == listing::counted(all, s));
        assert(found[i] == Some(want));
        assert(found.contains(Some(want)));
    }
}

/// The states that are counted are those of the jobs.
pub proof fn law_states_are_those_of_the_jobs(db: Database, k: int)
    requires
        0 <= k < db.queue@.len(),
    ensures
        listing::job_statuses(db@.queue).len() == db.queue@.len(),
        listing::job_statuses(db@.queue)[k] == db.queue@[k].status,
{
    assert(db@.queue[k] == db.queue@[k]@);
}

// ---------------------------------------------------------------------------
// Sources
// ---------------------------------------------------------------------------
/// The app that the creator with the handle promotes.
pub open spec fn app_there(creators: Seq<CreatorView>, source: Seq<char>) -> Option<Seq<char>> {
    joins::app_of(joins::creator_named(creators, Some(source)))
}

proof fn lemma_finds_of(db: DatabaseView, status: Option<&str>, q: QueueView, f: FoundView)
    ensures
        sources::finds_of(db, models::non_blank(filters::opt_str(status)), q).contains(f) <==> {
            &&& f.row == q
            &&& q.discovered_from == Some(f.source)
            &&& status_fits(status, q.status)
            &&& claim_laws::policy_applies(db, app_there(db.creators, f.source), f.policy)
        },
{
    let s = models::non_blank(filters::opt_str(status));
    let all = sources::finds_of(db, s, q);
    assert(q.status.text() == status_word(q.status));
    if sources::is_found(s, q) {
        let source = q.discovered_from->0;
        let app = sources::app_at(db.creators, source);
        let ps = joins::policies(db.apps, joins::or_blank(app));
        claim_laws::lemma_policies(db, app, f.policy);
        if all.contains(f) {
            let i = choose|i: int| 0 <= i < all.len() && all[i] == f;
            assert(all[i].policy == ps[i]);
            assert(ps.contains(ps[i]));
        }
        if f.row == q && f.source == source && ps.contains(f.policy) {
            let i = choose|i: int| 0 <= i < ps.len() && ps[i] == f.policy;
            assert(all[i] == f);
        }
    }
}

/// A job stands among those that are grouped exactly if it was found somewhere and
/// has the status that is asked for, once for each policy of the app that is
/// promoted where it was found.
pub proof fn law_jobs_that_were_found_somewhere(
    db: DatabaseView,
    status: Option<&str>,
    jobs: Seq<QueueView>,
    f: FoundView,
)
    ensures
        sources::finds(db, models::non_blank(filters::opt_str(status)), jobs).contains(f) <==> {
            &&& jobs.contains(f.row)
            &&& f.row.discovered_from == Some(f.source)
            &&& status_fits(status, f.row.status)
            &&& claim_laws::policy_applies(db, app_there(db.creators, f.source), f.policy)
        },
    decreases jobs.len(),
{
    let s = models::non_blank(filters::opt_str(status));
    if jobs.len() > 0 {
        let rest = jobs.drop_last();
        law_jobs_that_were_found_somewhere(db, status, rest, f);
        lemma_finds_of(db, status, jobs.last(), f);
        let a = sources::finds(db, s, rest);
        let b = sources::finds_of(db, s, jobs.last());
        let all = a + b;
        if all.contains(f) {
            let i = choose|i: int| 0 <= i < all.len() && all[i] == f;
            if i < a.len() {
                assert(a[i] == f);
                assert(a.contains(f));
                let k = choose|k: int| 0 <= k < rest.len() && rest[k] == f.row;
                assert(jobs[k] == f.row);
            } else {
                assert(b[i - a.len()] == f);
                assert(b.contains(f));
                assert(jobs[jobs.len() - 1] == f.row);
            }
        }
        if a.contains(f) {
            let i = choose|i: int| 0 <= i < a.len() && a[i] == f;
            assert(all[i] == f);
        }
        if b.contains(f) {
            let i = choose|i: int| 0 <= i < b.len() && b[i] == f;
            assert(all[a.len() + i] == f);
        }
        if jobs.contains(f.row) {
            let k = choose|k: int| 0 <= k < jobs.len() && jobs[k] == f.row;
            if k < rest.len() {
                assert(rest[k] == f.row);
                assert(rest.contains(f.row));
            }
        }
    }
}

proof fn lemma_source_keys(found: Seq<FoundView>, key: SourceKey)
    ensures
        sources::source_keys(found).contains(key) <==> exists|i: int|
            0 <= i < found.len() && (#[trigger] found[i]).source == key.source && found[i].policy
                == key.policy,
    decreases found.len(),
{
    if found.len() > 0 {
        let rest = found.drop_last();
        lemma_source_keys(rest, key);
        let last = sources::key_of_find(found.last());
        let keys = sources::source_keys(rest);
        let all = sources::source_keys(found);
        if all.contains(key) {
            let i = choose|i: int| 0 <= i < all.len() && all[i] == key;
            if i < keys.len() {
                assert(keys[i] == key);
                assert(keys.contains(key));
                let m = choose|m: int|
                    0 <= m < rest.len() && (#[trigger] rest[m]).source == key.source
                        && rest[m].policy == key.policy;
                assert(found[m] == rest[m]);
            } else {
                assert(found[found.len() - 1].source == key.source);
            }
        }
        if keys.contains(key) {
            let i = choose|i: int| 0 <= i < keys.len() && keys[i] == key;
            assert(all[i] == key);
        }
        if exists|i: int|
            0 <= i < found.len() && (#[trigger] found[i]).source == key.source && found[i].policy
                == key.policy {
            let i = choose|i: int|
                0 <= i < found.len() && (#[trigger] found[i]).source == key.source
                    && found[i].policy == key.policy;
            if i < rest.len() {
                assert(rest[i] == found[i]);
            } else {
                assert(last == key);
                if !keys.contains(last) {
                    assert(all[keys.len() as int] == key);
                }
            }
        }
    }
}

/// The jobs that were found at one creator stand together, under each policy of
/// the creator's app: there is a group exactly if there is such a job. It counts
/// the jobs, and those that are not done; it says when the first of them was
/// found, and whether one of them was put first by hand; its country and its app
/// are those of the creator.
pub proof fn law_groups_of_jobs(
    creators: Seq<CreatorView>,
    found: Seq<FoundView>,
    source: Seq<char>,
    policy: Option<AppPolicy>,
)
    ensures
        ({
            let there = exists|i: int|
                0 <= i < found.len() && (#[trigger] found[i]).source == source && found[i].policy
                    == policy;
            let shown = exists|g: int|
                0 <= g < sources::groups(creators, found).len() && (#[trigger] sources::groups(
                    creators,
                    found,
                )[g]).source == source && sources::groups(creators, found)[g].policy == policy;
            there <==> shown
        }),
        ({
            let g = sources::group_of(creators, found, SourceKey { source: source, policy: policy });
            let mine = found.filter(|f: FoundView| f.source == source && f.policy == policy);
            &&& g.source == source
            &&& g.policy == policy
            &&& g.item_count == mine.len()
            &&& g.removable_count == found.filter(
                |f: FoundView|
                    f.source == source && f.policy == policy && f.row.status != JobStatus::Done,
            ).len()
            &&& g.manual <==> exists|i: int|
                0 <= i < mine.len() && (#[trigger] mine[i]).row.manual_priority
            &&& mine.len() > 0 ==> (exists|i: int|
                0 <= i < mine.len() && (#[trigger] mine[i]).row.found_at == g.oldest)
            &&& forall|i: int|
                0 <= i < mine.len() ==> !order::before((#[trigger] mine[i]).row.found_at, g.oldest)
            &&& g.country == joins::country_of(joins::creator_named(creators, Some(source)))
            &&& g.app == app_there(creators, source)
        }),
{
    let key = SourceKey { source: source, policy: policy };
    lemma_source_keys(found, key);
    let keys = sources::source_keys(found);
    let all = sources::groups(creators, found);
    if keys.contains(key) {
        let k = choose|k: int| 0 <= k < keys.len() && keys[k] == key;
        assert(all[k].source == source && all[k].policy == policy);
    }
    if exists|g: int| 0 <= g < all.len() && (#[trigger] all[g]).source == source && all[g].policy
        == policy {
        let g = choose|g: int|
            0 <= g < all.len() && (#[trigger] all[g]).source == source && all[g].policy == policy;
        assert(all[g] == sources::group_of(creators, found, keys[g]));
        assert(keys[g] == key);
    }
    assert(sources::belongs(key) =~= (|f: FoundView| f.source == source && f.policy == policy));
    assert(sources::belongs_undone(key) =~= (|f: FoundView|
        f.source == source && f.policy == policy && f.row.status != JobStatus::Done));
    let mine = found.filter(sources::belongs(key));
    lemma_oldest(mine);
}

proof fn lemma_oldest(found: Seq<FoundView>)
    ensures
        found.len() == 0 ==> sources::oldest(found) is None,
        found.len() > 0 ==> sources::oldest(found) is Some && exists|i: int|
            0 <= i < found.len() && (#[trigger] found[i]).row.found_at == sources::oldest(found)->0,
        forall|i: int|
            0 <= i < found.len() ==> !order::before(
                (#[trigger] found[i]).row.found_at,
                sources::oldest(found)->0,
            ),
    decreases found.len(),
{
    if found.len() > 0 {
        let rest = found.drop_last();
        let last = found.last().row.found_at;
        lemma_oldest(rest);
        let now = sources::oldest(found)->0;
        order::lemma_before_irreflexive(last);
        if rest.len() > 0 {
            let was = sources::oldest(rest)->0;
            let m = choose|m: int| 0 <= m < rest.len() && (#[trigger] rest[m]).row.found_at == was;
            assert(found[m] == rest[m]);
        }
        assert(found[found.len() - 1].row.found_at == last);
        assert forall|i: int| 0 <= i < found.len() implies !order::before(
            (#[trigger] found[i]).row.found_at,
            now,
        ) by {
            if i < rest.len() {
                assert(rest[i] == found[i]);
                let was = sources::oldest(rest)->0;
                if order::before(last, was) && order::before(found[i].row.found_at, last) {
                    order::lemma_before_transitive(found[i].row.found_at, last, was);
                }
            }
        }
    }
}

/// What a list shows of a source are the values of its group; a source to whose app
/// no policy applies is neutral.
pub proof fn law_sources_are_shown(item: QueueSourceViewItem, g: GroupView)
    requires
        item@ == sources::source_shown()(g),
        g.item_count <= usize::MAX,
        g.removable_count <= usize::MAX,
    ensures
        item.source_handle@ == g.source,
        item.item_count == g.item_count,
        item.removable_count == g.removable_count,
        item.oldest_found_at@ == g.oldest,
        models::opt_text(item.country_code) == g.country,
        models::opt_text(item.app_name) == g.app,
        g.policy is Some ==> item.app_policy == g.policy->0,
        g.policy is None ==> item.app_policy == AppPolicy::Neutral,
{
}

/// Sources with a job that was put first by hand come first, then those whose app
/// is on the white list, then those whose first job was found earlier.
pub proof fn law_sources_are_in_turn(groups: Seq<GroupView>, i: int, j: int)
    requires
        0 <= i < j < table::chosen(
            groups,
            table::always(),
            sources::source_order(),
            sources::source_directions(),
        ).len(),
    ensures
        ({
            let all = table::chosen(
                groups,
                table::always(),
                sources::source_order(),
                sources::source_directions(),
            );
            let a = all[i];
            let b = all[j];
            let white_a = a.policy == Some(AppPolicy::Whitelist);
            let white_b = b.policy == Some(AppPolicy::Whitelist);
            &&& b.manual ==> a.manual
            &&& a.manual == b.manual && white_b ==> white_a
            &&& a.manual == b.manual && white_a == white_b ==> !order::before(b.oldest, a.oldest)
            &&& a.manual == b.manual && white_a == white_b && a.oldest == b.oldest
                ==> !order::before(b.source, a.source)
        }),
{
    let p = table::always::<GroupView>();
    let key = sources::source_order();
    let down = sources::source_directions();
    let all = table::chosen(groups, p, key, down);
    list_laws::lemma_chosen_in_order(groups, p, key, down, i, j);
    reveal_with_fuel(ranking::key_before, 6);
    let a = all[i];
    let b = all[j];
    assert(key(a)[2] == SortView::Text(a.oldest) && key(a)[3] == SortView::Text(a.source));
    assert(key(b)[2] == SortView::Text(b.oldest) && key(b)[3] == SortView::Text(b.source));
    order::lemma_before_irreflexive(a.oldest);
    order::lemma_before_irreflexive(a.source);
}

/// The creators that are counted as sources are those at which a job with the
/// status that is asked for was found, each once.
pub proof fn law_sources_are_counted(jobs: Seq<QueueView>, status: Option<&str>, h: Seq<char>)
    ensures
        ({
            let all = order::sorted_set(
                lists::present(
                    jobs.map_values(
                        sources::found_at_source(models::non_blank(filters::opt_str(status))),
                    ),
                ),
            );
            &&& all.contains(h) <==> exists|i: int|
                0 <= i < jobs.len() && (#[trigger] jobs[i]).discovered_from == Some(h)
                    && status_fits(status, jobs[i].status)
            &&& order::ascending(all)
        }),
{
    let s = models::non_blank(filters::opt_str(status));
    let found = jobs.map_values(sources::found_at_source(s));
    lemma_set_of(found, h);
    if found.contains(Some(h)) {
        let i = choose|i: int| 0 <= i < found.len() && found[i] == Some(h);
        assert(jobs[i].status.text() == status_word(jobs[i].status));
        assert(jobs[i].discovered_from == Some(h));
    }
    if exists|i: int|
        0 <= i < jobs.len() && (#[trigger] jobs[i]).discovered_from == Some(h) && status_fits(
            status,
            jobs[i].status,
        ) {
        let i = choose|i: int|
            0 <= i < jobs.len() && (#[trigger] jobs[i]).discovered_from == Some(h) && status_fits(
                status,
                jobs[i].status,
            );
        assert(jobs[i].status.text() == status_word(jobs[i].status));
        assert(found[i] == Some(h));
    }
}

/// The set of what is present holds what is present, in ascending order.
pub proof fn lemma_set_of(found: Seq<Option<Seq<char>>>, h: Seq<char>)
    ensures
        order::sorted_set(lists::present(found)).contains(h) <==> found.contains(Some(h)),
        order::ascending(order::sorted_set(lists::present(found))),
{
    lists::lemma_present_members(found);
    order::lemma_sorted_set(lists::present(found));
    assert(lists::present(found).contains(h) <==> found.contains(Some(h)));
}

/// The creator at which a waiting job was found.
pub open spec fn is_parent(db: DatabaseView, c: CreatorView, i: int) -> bool {
    &&& 0 <= i < db.queue.len()
    &&& db.queue[i].status == JobStatus::Pending || db.queue[i].status == JobStatus::Retry
    &&& db.queue[i].discovered_from == Some(c.handle)
    &&& db.creators.contains(c)
}

proof fn lemma_parent(db: DatabaseView, c: CreatorView, i: int)
    requires
        db.wf(),
        is_parent(db, c, i),
    ensures
        joins::creator_named(db.creators, db.queue[i].discovered_from) == Some(c),
{
    let h = c.handle;
    let p = rows::creator_is(h);
    let k = choose|k: int| 0 <= k < db.creators.len() && db.creators[k] == c;
    let key = rows::creator_key();
    assert forall|j: int| 0 <= j < k implies !p(#[trigger] db.creators[j]) by {
        assert(key(db.creators[j]) != key(db.creators[k]));
    }
    assert(table::is_first(db.creators, p, k));
    table::lemma_first(db.creators, p, k);
}

proof fn lemma_named_parent(db: DatabaseView, i: int)
    requires
        0 <= i < db.queue.len(),
        queue::is_open(db.queue[i].status),
        joins::creator_named(db.creators, db.queue[i].discovered_from) is Some,
    ensures
        is_parent(db, joins::creator_named(db.creators, db.queue[i].discovered_from)->0, i),
{
    let h = db.queue[i].discovered_from->0;
    let p = rows::creator_is(h);
    let k = choose|k: int| table::is_first(db.creators, p, k);
    assert(p(db.creators[k]));
    assert(db.creators.contains(db.creators[k]));
}

/// The countries of the creators at which waiting jobs were found are listed in
/// upper case, in ascending order and each once; a country that is blank is not.
pub proof fn law_countries_of_parents(db: DatabaseView, code: Seq<char>)
    requires
        db.wf(),
    ensures
        ({
            let all = order::sorted_set(
                lists::present(db.queue.map_values(sources::open_parent_country(db.creators))),
            );
            &&& order::ascending(all)
            &&& all.contains(code) <==> exists|c: CreatorView, i: int| #[trigger]
                is_parent(db, c, i) && filled(c.country_code) && text::upper(c.country_code->0)
                    == code
        }),
{
    let f = sources::open_parent_country(db.creators);
    let found = db.queue.map_values(f);
    lemma_set_of(found, code);
    if found.contains(Some(code)) {
        let i = choose|i: int| 0 <= i < found.len() && found[i] == Some(code);
        lemma_named_parent(db, i);
        let c = joins::creator_named(db.creators, db.queue[i].discovered_from)->0;
        assert(is_parent(db, c, i));
    }
    if exists|c: CreatorView, i: int| #[trigger]
        is_parent(db, c, i) && filled(c.country_code) && text::upper(c.country_code->0) == code {
        let (c, i) = choose|c: CreatorView, i: int| #[trigger]
            is_parent(db, c, i) && filled(c.country_code) && text::upper(c.country_code->0) == code;
        lemma_parent(db, c, i);
        assert(found[i] == creator_lists::known_country()(c));
        assert(found[i] == Some(code));
    }
}

/// The creators whose country is to be looked up are those at which a waiting job
/// was found, that have no country, and that nobody has looked up.
pub proof fn law_parents_without_country(db: DatabaseView, h: Seq<char>)
    requires
        db.wf(),
    ensures
        ({
            let all = order::sorted_set(
                lists::present(db.queue.map_values(sources::open_parent_unknown(db.creators))),
            );
            &&& order::ascending(all)
            &&& all.contains(h) <==> exists|c: CreatorView, i: int| #[trigger]
                is_parent(db, c, i) && !filled(c.country_code) && c.country_checked_at is None
                    && c.handle == h
        }),
{
    let f = sources::open_parent_unknown(db.creators);
    let found = db.queue.map_values(f);
    lemma_set_of(found, h);
    if found.contains(Some(h)) {
        let i = choose|i: int| 0 <= i < found.len() && found[i] == Some(h);
        lemma_named_parent(db, i);
        let c = joins::creator_named(db.creators, db.queue[i].discovered_from)->0;
        assert(is_parent(db, c, i));
    }
    if exists|c: CreatorView, i: int| #[trigger]
        is_parent(db, c, i) && !filled(c.country_code) && c.country_checked_at is None && c.handle
            == h {
        let (c, i) = choose|c: CreatorView, i: int| #[trigger]
            is_parent(db, c, i) && !filled(c.country_code) && c.country_checked_at is None
                && c.handle == h;
        lemma_parent(db, c, i);
        assert(found[i] == Some(h));
    }
}

/// A list has as many rows as are asked for, a thousand at most, and begins behind
/// as many as are to be skipped.
pub proof fn law_rows_of_a_list(limit: usize, offset: usize)
    ensures
        limit <= 1000 ==> listing::at_most(limit, listing::LIST_LIMIT) == limit,
        limit > 1000 ==> listing::at_most(limit, listing::LIST_LIMIT) == 1000,
        offset <= 0x7fff_ffff_ffff_ffff ==> listing::skipped(offset) == offset,
        offset > 0x7fff_ffff_ffff_ffff ==> listing::skipped(offset) == 0,
{
}

} // verus!
