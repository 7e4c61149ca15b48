//! What requests to the dashboard ask for.

use vstd::prelude::*;
use crate::crawler::run::RunSummary;
use crate::db::change_laws;
use crate::db::creator_lists::CreatorListFilters;
use crate::db::filter_laws;
use crate::db::filters;
use crate::db::frontier_laws;
use crate::db::rows;
use crate::db::rows::{DatabaseView, JobStatus};
use crate::db::table;
use crate::handles;
use crate::models;
use crate::reading_laws;
use crate::search;
use crate::text;
use crate::web::pages;
use crate::web::requests;
use crate::web::requests::{ApiError, CreatorQuery, PagePlace, PageRequest};
use crate::web::runners;
use crate::web::runners::{
    FrontierRunPlan, FrontierRunRequest, FrontierRunnerState, QueueRunPlan, RunRequest, RunResult,
    RunnerState, Runners,
};

verus! {

// ---------------------------------------------------------------------------
// Refusals and values
// ---------------------------------------------------------------------------
/// A request without a handle is a bad one, a request for a run conflicts with a
/// run that is going on, and what the database refuses is an error of the server.
pub proof fn law_status_of_a_refusal(error: ApiError)
    ensures
        error.code() == 400 <==> error is NoHandle,
        error.code() == 409 <==> error is QueueRunning || error is ScraperRunning
            || error is FrontierRunning,
        error.code() == 500 <==> error is Database,
        error is NoHandle ==> error.text() == "at least one handle is required"@,
        error is QueueRunning ==> error.text() == "queue scraper is already running"@,
        error is ScraperRunning ==> error.text() == "scraper is already running"@,
        error is FrontierRunning ==> error.text() == "frontier crawler is already running"@,
        error matches ApiError::Database(e) ==> error.text() == e.text(),
{
}

/// A list with commas asks for its parts: the text up to the first comma, and what
/// the rest asks for. Nothing given asks for nothing.
pub proof fn law_lists_with_commas(a: Seq<char>, b: Seq<char>)
    requires
        !a.contains(','),
    ensures
        requests::csv_values(Some(a)) == filters::filter_values(seq![a]),
        requests::csv_values(Some(a + seq![','] + b)) == filters::filter_values(
            seq![a] + search::split(b, seq![',']),
        ),
        requests::csv_values(None) == filters::filter_values(seq![Seq::<char>::empty()]),
{
    reveal_strlit(",");
    let comma = ","@;
    assert(comma =~= seq![',']);
    reading_laws::lemma_split_whole(a, ',');
    reading_laws::lemma_split_first(a, ',', b);
    reading_laws::lemma_split_whole(Seq::empty(), ',');
}

/// The values of a request are those of filters, in upper case where that is asked
/// for.
pub proof fn law_values_of_a_request(given: Seq<String>, t: Seq<char>)
    ensures
        filters::has_ignoring_case(
            requests::request_values(search::texts(given), false),
            t,
        ) <==> filter_laws::asked(given, t),
        requests::request_values(search::texts(given), true).contains(text::upper(t))
            <==> filter_laws::asked(given, t),
        requests::request_values(search::texts(given), true).len() == 0
            <==> filter_laws::nothing_asked(given),
        requests::request_values(search::texts(given), false).len() == 0
            <==> filter_laws::nothing_asked(given),
{
    filter_laws::law_values_ask_for_what_is_given(given, t);
}

/// A page has the rows that are asked for, one at least and five hundred at most; a
/// page of jobs has a hundred and one of creators has fifty unless the request says
/// so. It begins at the first row unless the request says so.
pub proof fn law_pages_that_requests_ask_for(n: usize, offset: Option<usize>, usual: usize)
    ensures
        1 <= n <= 500 ==> requests::asked_page(Some(n), offset, usual).limit == n,
        n == 0 ==> requests::asked_page(Some(n), offset, usual).limit == 1,
        n > 500 ==> requests::asked_page(Some(n), offset, usual).limit == 500,
        requests::asked_page(None, offset, requests::QUEUE_PAGE).limit == 100,
        requests::asked_page(None, offset, requests::CREATOR_PAGE).limit == 50,
        requests::SEED_PAGE == 500,
        offset is None ==> requests::asked_page(Some(n), offset, usual).offset == 0,
        offset is Some ==> requests::asked_page(Some(n), offset, usual).offset == offset->0,
        offset is Some ==> requests::asked_page(None, offset, usual).offset == offset->0,
{
}

/// A page says how many rows there are, which of them it shows, and whether there
/// are rows after it and before it.
pub proof fn law_place_of_a_page(place: PagePlace, page: PageRequest, total: nat, row: nat)
    requires
        pages::is_place_of(place, page, total),
    ensures
        place.total == total,
        place.limit == page.limit,
        place.offset == page.offset,
        page.offset + page.limit <= row < total ==> place.has_next,
        place.has_next ==> page.offset + page.limit < total,
        row < page.offset ==> place.has_prev,
        place.has_prev ==> page.offset > 0,
{
}

/// A missing text is stood for by another.
pub proof fn law_usual_texts(t: Seq<char>, other: Seq<char>)
    ensures
        requests::or_text(Some(t), other) == t,
        requests::or_text(None, other) == other,
{
}

/// A query for creators asks what filters with the same values ask, where lists are
/// written with commas.
pub proof fn law_query_for_creators(q: CreatorQuery, f: CreatorListFilters)
    requires
        models::opt_text(f.app_mode) == models::opt_text(q.app_mode),
        search::texts(f.app_names@) == requests::csv_values(models::opt_text(q.apps)),
        search::texts(f.language_codes@) == requests::csv_values(models::opt_text(q.languages)),
        search::texts(f.country_codes@) == requests::csv_values(models::opt_text(q.countries)),
        search::texts(f.contact_statuses@) == requests::csv_values(
            models::opt_text(q.contact_statuses),
        ),
        models::opt_text(f.email_filter) == models::opt_text(q.email),
        f.min_followers == q.min_followers,
        f.max_followers == q.max_followers,
        f.min_following == q.min_following,
        f.max_following == q.max_following,
        f.min_median_views == q.min_median_views,
        f.max_median_views == q.max_median_views,
        f.min_avg_views == q.min_avg_views,
        f.max_avg_views == q.max_avg_views,
    ensures
        f@ == q.asks(),
{
}

/// The handles of a request are those of its list, and the single one after them.
pub proof fn law_handles_of_a_request(list: Option<Vec<String>>, single: Option<Seq<char>>)
    ensures
        ({
            let listed = requests::listed_handles(list);
            let all = requests::all_handles(listed, single);
            &&& list is None ==> listed.len() == 0
            &&& list is Some ==> listed == list->0@.map_values(|s: String| s@)
            &&& single is None ==> all == listed
            &&& single is Some ==> all.len() == listed.len() + 1 && all.drop_last() == listed
                && all.last() == single->0
        }),
{
    if list is Some {
        assert(requests::listed_handles(list) =~= list->0@.map_values(|s: String| s@));
    }
    if single is Some {
        let listed = requests::listed_handles(list);
        assert(listed.push(single->0).drop_last() =~= listed);
    }
}

// ---------------------------------------------------------------------------
// Runs
// ---------------------------------------------------------------------------
/// The texts of a list that may be missing.
pub open spec fn given(list: Option<Vec<String>>) -> Seq<String> {
    match list {
        Some(list) => list@,
        None => Seq::empty(),
    }
}

/// A run works on ten creators at once unless the request says so, on one at least
/// and on twenty-five at most.
pub proof fn law_creators_at_once(n: usize)
    ensures
        runners::asked_concurrency(None) == 10,
        1 <= n <= 25 ==> runners::asked_concurrency(Some(n)) == n,
        n == 0 ==> runners::asked_concurrency(Some(n)) == 1,
        n > 25 ==> runners::asked_concurrency(Some(n)) == 25,
{
}

/// A run over the queue is for the countries, the apps and the handles that the
/// request names. Where the request does not say whether it is for apps on the white
/// list, it is if neither a handle nor an app is named.
pub proof fn law_run_is_for_what_is_asked(request: RunRequest, t: Seq<char>)
    ensures
        request.asked_countries().contains(text::upper(t)) <==> filter_laws::asked(
            given(request.countries),
            t,
        ),
        filters::has_ignoring_case(request.asked_apps(), t) <==> filter_laws::asked(
            given(request.apps),
            t,
        ),
        request.asked_handles() == search::texts(given(request.handles)),
        request.whitelist_only is Some ==> request.asks_whitelist() == request.whitelist_only->0,
        request.whitelist_only is None ==> (request.asks_whitelist() <==> given(
            request.handles,
        ).len() == 0 && filter_laws::nothing_asked(given(request.apps))),
{
    assert(requests::listed_handles(request.countries) =~= search::texts(
        given(request.countries),
    ));
    assert(requests::listed_handles(request.apps) =~= search::texts(given(request.apps)));
    assert(requests::listed_handles(request.handles) =~= search::texts(given(request.handles)));
    filter_laws::law_values_ask_for_what_is_given(given(request.countries), t);
    filter_laws::law_values_ask_for_what_is_given(given(request.apps), t);
}

/// The plan of a run and the state that is shown of it hold what the request asks
/// for.
pub proof fn law_begun_run_is_the_planned_one(
    request: RunRequest,
    plan: QueueRunPlan,
    state: RunnerState,
    now: Seq<char>,
)
    requires
        request.is_planned(plan),
        state.is_begun(request, now),
    ensures
        state.running && !state.stopping,
        state.started_at is Some && state.started_at->0@ == now,
        state.finished_at is None,
        state.last_summary is None && state.last_error is None,
        plan.limit == request.limit && state.limit == request.limit,
        plan.concurrency == state.concurrency,
        request.concurrency is None ==> plan.concurrency == 10,
        plan.filters.language_code is None && plan.filters.app_name is None,
        search::texts(plan.filters.app_names@) == request.asked_apps(),
        search::texts(state.app_names@) == request.asked_apps(),
        search::texts(plan.filters.country_codes@) == request.asked_countries(),
        search::texts(state.country_codes@) == request.asked_countries(),
        search::texts(plan.filters.handles@) == search::texts(given(request.handles)),
        search::texts(state.handles@) == search::texts(given(request.handles)),
        plan.filters.whitelist_only == request.asks_whitelist(),
        state.whitelist_only == plan.filters.whitelist_only,
{
    assert(requests::listed_handles(request.handles) =~= search::texts(given(request.handles)));
}

/// A frontier run crawls known seeds again unless the request says otherwise, and
/// its plan and the state that is shown of it hold what the request asks for.
pub proof fn law_begun_frontier_run_is_the_planned_one(
    request: FrontierRunRequest,
    plan: FrontierRunPlan,
    state: FrontierRunnerState,
    run_id: i64,
    now: Seq<char>,
)
    requires
        request.is_planned(plan, run_id),
        state.is_begun(request, run_id, now),
    ensures
        state.running && !state.stopping,
        state.started_at is Some && state.started_at->0@ == now,
        state.finished_at is None,
        state.last_summary is None && state.last_error is None,
        plan.run_id == run_id && state.run_id == Some(run_id),
        plan.limit == request.limit && state.limit == request.limit,
        plan.concurrency == state.concurrency,
        request.concurrency is None ==> plan.concurrency == 10,
        request.refresh_seeds is None ==> plan.refresh_seeds,
        request.refresh_seeds is Some ==> plan.refresh_seeds == request.refresh_seeds->0,
        state.refresh_seeds == plan.refresh_seeds,
{
}

/// Creators that a request names and that are not known have a job then, and jobs
/// of creators that it does not name stay.
pub proof fn law_named_creators_are_put_first(
    db: DatabaseView,
    wanted: Seq<Seq<char>>,
    now: Seq<char>,
    i: int,
    h: Seq<char>,
    k: int,
)
    ensures
        ({
            let after = runners::put_first(db, wanted, now);
            &&& after == (DatabaseView { queue: after.queue, ..db })
            &&& wanted.len() == 0 ==> after.queue == db.queue
            &&& 0 <= i < wanted.len() && handles::normalized_handle(wanted[i]) == Some(h)
                ==> change_laws::has_row(db.creators, h) || change_laws::has_job(after.queue, h)
            &&& 0 <= k < db.queue.len() && (forall|j: int|
                0 <= j < wanted.len() ==> handles::normalized_handle(#[trigger] wanted[j]) != Some(
                    db.queue[k].handle,
                )) ==> after.queue[k] == db.queue[k]
            &&& 0 <= k < db.queue.len() && 0 <= i < wanted.len() && handles::normalized_handle(
                wanted[i],
            ) == Some(db.queue[k].handle) && db.queue[k].status != JobStatus::Processing
                && db.queue[k].status != JobStatus::Done ==> after.queue[k].manual_priority
                && after.queue[k].status == JobStatus::Pending
        }),
{
    if wanted.len() > 0 {
        let list = handles::normalized_handles(wanted);
        change_laws::law_creators_that_are_put_first(db.creators, db.queue, list, now, k);
        handles::law_normalized_handles_members(wanted, h);
        if 0 <= i < wanted.len() && handles::normalized_handle(wanted[i]) == Some(h) {
            assert(list.contains(h));
        }
        if 0 <= k < db.queue.len() {
            handles::law_normalized_handles_members(wanted, db.queue[k].handle);
        }
    }
}

/// A run that came to its end leaves its summary, and one that failed its error.
pub proof fn law_what_a_run_leaves(summary: RunSummary, error: String)
    ensures
        runners::summary_of(RunResult::Completed(summary)) == Some(summary),
        runners::error_of(RunResult::Completed(summary)) is None,
        runners::summary_of(RunResult::Failed(error)) is None,
        runners::error_of(RunResult::Failed(error)) == Some(error@),
{
}

/// One run is going on at most, and only a run that is going on is being stopped.
pub proof fn law_one_run_at_a_time(r: Runners)
    ensures
        r.wf() <==> (r.queue.running ==> !r.frontier.running) && (r.queue.stopping
            ==> r.queue.running) && (r.frontier.stopping ==> r.frontier.running),
{
}

/// The run that is shown is the one with the number that is asked for, else one with
/// the greatest number; there is none where no run has the number.
pub proof fn law_run_that_is_shown(db: DatabaseView, id: i64)
    ensures
        pages::shown_id(db, Some(id)) is Some <==> exists|k: int|
            0 <= k < db.runs.len() && (#[trigger] db.runs[k]).id == id,
        pages::shown_id(db, Some(id)) is Some ==> pages::shown_id(db, Some(id)) == Some(id),
        pages::shown_id(db, None) is Some <==> db.runs.len() > 0,
        pages::shown_id(db, None) matches Some(latest) ==> forall|k: int|
            0 <= k < db.runs.len() ==> (#[trigger] db.runs[k]).id <= latest,
{
    let p = rows::run_is(id);
    frontier_laws::law_latest_run(db.runs, id);
    table::lemma_no_first(db.runs, p);
    if table::some_row(db.runs, p) {
        let k = choose|k: int| 0 <= k < db.runs.len() && p(#[trigger] db.runs[k]);
        table::lemma_some_first(db.runs, p, k);
        let i = choose|i: int| table::is_first(db.runs, p, i);
        table::lemma_first(db.runs, p, i);
        assert(db.runs[i].id == id);
    }
    if exists|k: int| 0 <= k < db.runs.len() && (#[trigger] db.runs[k]).id == id {
        let k = choose|k: int| 0 <= k < db.runs.len() && (#[trigger] db.runs[k]).id == id;
        assert(p(db.runs[k]));
    }
}

} // verus!
