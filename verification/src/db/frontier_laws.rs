//! What holds of seeds, runs and their items, over the columns of their rows.

use vstd::prelude::*;
use crate::db::frontier;
use crate::db::frontier::FrontierRunFinish;
use crate::db::list_laws;
use crate::db::queue;
use crate::db::rows;
use crate::db::rows::{BucketView, DatabaseView, ItemView, JobStatus, RunStatus, RunView};
use crate::db::table;
use crate::moment::ClockView;
use crate::order;
use crate::ranking;
use crate::ranking::SortView;
use crate::text;

verus! {

// ---------------------------------------------------------------------------
// Seeds
// ---------------------------------------------------------------------------
/// A handle is among the seeds.
pub open spec fn is_seed(bucket: Seq<BucketView>, handle: Seq<char>) -> bool {
    exists|k: int| 0 <= k < bucket.len() && (#[trigger] bucket[k]).handle == handle
}

proof fn lemma_is_seed(bucket: Seq<BucketView>, handle: Seq<char>)
    ensures
        table::some_row(bucket, rows::seed_is(handle)) == is_seed(bucket, handle),
{
    let p = rows::seed_is(handle);
    if table::some_row(bucket, p) {
        let k = choose|k: int| 0 <= k < bucket.len() && p(#[trigger] bucket[k]);
        assert(bucket[k].handle == handle);
    }
    if is_seed(bucket, handle) {
        let k = choose|k: int| 0 <= k < bucket.len() && (#[trigger] bucket[k]).handle == handle;
        assert(p(bucket[k]));
    }
}

/// A seed is put in at the end, once, with where it comes from and when it was put
/// in; taking it out leaves exactly the other seeds.
pub proof fn law_seeds_come_and_go(
    bucket: Seq<BucketView>,
    handle: Seq<char>,
    source: Option<Seq<char>>,
    now: Seq<char>,
    b: BucketView,
)
    ensures
        is_seed(bucket, handle) ==> frontier::with_seed(bucket, handle, source, now) == bucket,
        !is_seed(bucket, handle) ==> frontier::with_seed(bucket, handle, source, now)
            == bucket.push(BucketView { handle: handle, added_at: now, source: source }),
        table::some_row(bucket, rows::seed_is(handle)) == is_seed(bucket, handle),
        table::without(bucket, rows::seed_is(handle)).contains(b) <==> bucket.contains(b)
            && b.handle != handle,
{
    lemma_is_seed(bucket, handle);
    let p = rows::seed_is(handle);
    let q = table::opposite(p);
    let kept = bucket.filter(q);
    table::lemma_filter_members(bucket, q);
    if kept.contains(b) {
        let i = choose|i: int| 0 <= i < kept.len() && kept[i] == b;
        assert(bucket.contains(kept[i]) && q(kept[i]));
    }
    if bucket.contains(b) && b.handle != handle {
        let i = choose|i: int| 0 <= i < bucket.len() && bucket[i] == b;
        bucket.lemma_filter_contains(q, i);
    }
}

// ---------------------------------------------------------------------------
// Runs
// ---------------------------------------------------------------------------
proof fn lemma_greatest(runs: Seq<RunView>)
    ensures
        frontier::greatest_id(runs) >= 0,
        forall|i: int| 0 <= i < runs.len() ==> (#[trigger] runs[i]).id <= frontier::greatest_id(runs),
        frontier::greatest_id(runs) > 0 ==> exists|i: int|
            0 <= i < runs.len() && (#[trigger] runs[i]).id == frontier::greatest_id(runs),
    decreases runs.len(),
{
    if runs.len() > 0 {
        let rest = runs.drop_last();
        lemma_greatest(rest);
        assert forall|i: int| 0 <= i < runs.len() implies (#[trigger] runs[i]).id
            <= frontier::greatest_id(runs) by {
            if i < rest.len() {
                assert(rest[i] == runs[i]);
            }
        }
        if frontier::greatest_id(runs) > 0 {
            if runs.last().id > frontier::greatest_id(rest) {
                assert(runs[runs.len() - 1].id == frontier::greatest_id(runs));
            } else {
                let i = choose|i: int|
                    0 <= i < rest.len() && (#[trigger] rest[i]).id == frontier::greatest_id(rest);
                assert(runs[i].id == frontier::greatest_id(runs));
            }
        }
    }
}

/// A run that starts gets the number after the greatest, or one where there is
/// none; it is running since the present, with the number of seeds and the depth
/// that is asked for, and nothing of it is done. Its items are the seeds in their
/// order, at depth zero, untried and found nowhere; all other rows stay.
pub proof fn law_run_starts(db: DatabaseView, depth_limit: u8, now: Seq<char>, k: int)
    requires
        frontier::greatest_id(db.runs) < i64::MAX,
        db.bucket.len() <= usize::MAX,
    ensures
        ({
            let after = frontier::started(db, depth_limit, now);
            let n = db.runs.len() as int;
            let run = after.runs[n];
            let m = db.items.len() as int;
            &&& after.runs.len() == n + 1
            &&& 0 <= k < n ==> after.runs[k] == db.runs[k] && run.id > db.runs[k].id
            &&& run.id >= 1
            &&& run.id > 1 ==> exists|i: int|
                0 <= i < db.runs.len() && (#[trigger] db.runs[i]).id == run.id - 1
            &&& run.status == RunStatus::Running
            &&& run.created_at == now
            &&& run.started_at == Some(now)
            &&& run.finished_at is None
            &&& run.seed_count == db.bucket.len()
            &&& run.depth_limit == depth_limit
            &&& run.processed == 0 && run.succeeded == 0 && run.failed == 0 && run.skipped == 0
            &&& run.last_error is None
            &&& after.items.len() == m + db.bucket.len()
            &&& 0 <= k < m ==> after.items[k] == db.items[k]
            &&& 0 <= k < db.bucket.len() ==> after.items[m + k] == (ItemView {
                run_id: run.id,
                handle: db.bucket[k].handle,
                depth: 0,
                discovered_from: None,
                found_at: now,
                status: JobStatus::Pending,
                attempts: 0,
                locked_at: None,
                scraped_at: None,
                last_error: None,
            })
            &&& after == (DatabaseView { runs: after.runs, items: after.items, ..db })
        }),
{
    lemma_greatest(db.runs);
}

/// The latest run is the one with the greatest number; there is one exactly if
/// there is a run. It is asked for unless a number is given.
pub proof fn law_latest_run(runs: Seq<RunView>, id: i64)
    ensures
        frontier::latest(runs) is Some <==> runs.len() > 0,
        frontier::latest(runs) matches Some(run) ==> runs.contains(run) && forall|i: int|
            0 <= i < runs.len() ==> (#[trigger] runs[i]).id <= run.id,
        frontier::asked_run(runs, Some(id)) == Some(id),
        frontier::latest(runs) matches Some(run) ==> frontier::asked_run(runs, None) == Some(
            run.id,
        ),
        frontier::latest(runs) is None ==> frontier::asked_run(runs, None) is None,
{
    let p = table::always::<RunView>();
    let key = frontier::run_order();
    let down = seq![true];
    let all = table::chosen(runs, p, key, down);
    let hits = runs.filter(p);
    queue::lemma_chosen_members(runs, p, key, down);
    assert forall|i: int| 0 <= i < runs.len() implies all.len() > 0 && (#[trigger] runs[i]).id
        <= all[0].id by {
        runs.lemma_filter_contains(p, i);
        let m = choose|m: int| 0 <= m < hits.len() && hits[m] == runs[i];
        let keys = hits.map_values(key);
        ranking::lemma_ranking(keys, down);
        ranking::lemma_ranking_len(keys, down);
        let places = ranking::ranking(keys, down);
        assert(places.contains(m));
        let at = choose|at: int| 0 <= at < places.len() && places[at] == m;
        assert(all[at] == runs[i]);
        if at > 0 {
            list_laws::lemma_chosen_in_order(runs, p, key, down, 0, at);
            reveal_with_fuel(ranking::key_before, 2);
            assert(key(all[0])[0] == SortView::Number(all[0].id as int));
            assert(key(all[at])[0] == SortView::Number(all[at].id as int));
        }
    }
    if all.len() > 0 {
        assert(runs.contains(all[0]));
        assert(runs.len() > 0);
    }
    if runs.len() > 0 {
        assert(runs[0].id <= all[0].id);
    }
}

/// The words for the end of a run, with white space around them, and no others.
pub proof fn law_words_for_the_end(word: Seq<char>)
    ensures
        ({
            let w = text::trim(word);
            &&& frontier::end_of(word) == Some(RunStatus::Completed) <==> w == "completed"@
            &&& frontier::end_of(word) == Some(RunStatus::Stopped) <==> w == "stopped"@
            &&& frontier::end_of(word) == Some(RunStatus::Failed) <==> w == "failed"@
            &&& frontier::end_of(word) != Some(RunStatus::Running)
        }),
{
    reveal_strlit("completed");
    reveal_strlit("stopped");
    reveal_strlit("failed");
    assert("completed"@.len() == 9);
    assert("stopped"@.len() == 7);
    assert("failed"@.len() == 6);
}

/// The end of a run notes the state, the time, each of the four counts and the
/// first 1500 characters of the error; when it started, what it started with and
/// all other runs stay.
pub proof fn law_run_ends(
    runs: Seq<RunView>,
    id: i64,
    status: RunStatus,
    finish: FrontierRunFinish<'_>,
    now: Seq<char>,
    k: int,
)
    requires
        0 <= k < runs.len(),
    ensures
        ({
            let run = runs[k];
            let a = runs.map_values(frontier::ended(id, status, finish, now))[k];
            &&& run.id != id ==> a == run
            &&& run.id == id ==> a == (RunView {
                status: status,
                finished_at: Some(now),
                processed: finish.processed,
                succeeded: finish.succeeded,
                failed: finish.failed,
                skipped: finish.skipped,
                last_error: a.last_error,
                ..run
            })
            &&& run.id == id && finish.last_error is None ==> a.last_error is None
            &&& run.id == id && finish.last_error is Some && finish.last_error->0@.len() <= 1500
                ==> a.last_error == Some(finish.last_error->0@)
            &&& run.id == id && finish.last_error is Some && finish.last_error->0@.len() > 1500
                ==> a.last_error == Some(finish.last_error->0@.take(1500))
        }),
{
}

// ---------------------------------------------------------------------------
// Items
// ---------------------------------------------------------------------------
/// The worker of the item did not come back.
pub open spec fn is_abandoned(v: ItemView, run_id: i64, clock: ClockView) -> bool {
    &&& v.run_id == run_id
    &&& v.status == JobStatus::Processing
    &&& v.locked_at is Some
    &&& order::before(v.locked_at->0, clock.stale_before)
}

/// The item of the run may be taken: it waits, or was abandoned with tries left.
pub open spec fn may_be_taken(v: ItemView, run_id: i64, clock: ClockView) -> bool {
    &&& v.run_id == run_id
    &&& v.status == JobStatus::Pending || v.status == JobStatus::Retry || is_abandoned(
        v,
        run_id,
        clock,
    ) && v.attempts < 3
}

proof fn lemma_may_be_taken(items: Seq<ItemView>, run_id: i64, clock: ClockView, i: int)
    requires
        0 <= i < items.len(),
    ensures
        ({
            let f = frontier::items_refreshed(items, run_id, clock)[i];
            &&& frontier::open_item(run_id)(f) <==> may_be_taken(items[i], run_id, clock)
            &&& f.depth == items[i].depth
            &&& f.found_at == items[i].found_at
            &&& f.handle == items[i].handle
            &&& f.attempts == items[i].attempts
            &&& f.run_id == items[i].run_id
        }),
{
}

/// An item is taken exactly if some item of the run may be. It is one that may be,
/// and none of those is less deep, or as deep and found earlier, or both and before
/// it by handle.
pub proof fn law_item_whose_turn_it_is(
    items: Seq<ItemView>,
    run_id: i64,
    clock: ClockView,
    i: int,
)
    requires
        0 <= i < items.len(),
        may_be_taken(items[i], run_id, clock),
    ensures
        frontier::next_item(items, run_id, clock) is Some,
        ({
            let v = frontier::next_item(items, run_id, clock)->0;
            let o = items[i];
            &&& v.depth <= o.depth
            &&& v.depth == o.depth ==> !order::before(o.found_at, v.found_at)
            &&& v.depth == o.depth && v.found_at == o.found_at ==> !order::before(
                text::lower(o.handle),
                text::lower(v.handle),
            )
        }),
{
    let fresh = frontier::items_refreshed(items, run_id, clock);
    let p = frontier::open_item(run_id);
    let key = frontier::item_order();
    let down = frontier::item_directions();
    let hits = fresh.filter(p);
    lemma_may_be_taken(items, run_id, clock, i);
    fresh.lemma_filter_contains(p, i);
    let m = choose|m: int| 0 <= m < hits.len() && hits[m] == fresh[i];
    let keys = hits.map_values(key);
    ranking::lemma_ranking(keys, down);
    ranking::lemma_ranking_len(keys, down);
    let places = ranking::ranking(keys, down);
    assert(places.contains(m));
    let at = choose|at: int| 0 <= at < places.len() && places[at] == m;
    let all = frontier::items_waiting(items, run_id, clock);
    assert(all[at] == fresh[i]);
    let v = all[0];
    let o = fresh[i];
    order::lemma_before_irreflexive(v.found_at);
    order::lemma_before_irreflexive(text::lower(v.handle));
    if at > 0 {
        list_laws::lemma_chosen_in_order(fresh, p, key, down, 0, at);
        reveal_with_fuel(ranking::key_before, 4);
        assert(key(v)[0] == SortView::Number(v.depth as int));
        assert(key(o)[0] == SortView::Number(o.depth as int));
        assert(key(v)[1] == SortView::Text(v.found_at));
        assert(key(o)[1] == SortView::Text(o.found_at));
        assert(key(v)[2] == SortView::Text(text::lower(v.handle)));
        assert(key(o)[2] == SortView::Text(text::lower(o.handle)));
    }
}

/// What is taken is an item of the run that may be taken. It is worked on from the
/// present, with one try more and without an error. An item of the run that was
/// abandoned waits again, or has failed for good after the third try, with a note
/// on it; every other item stays as it is.
pub proof fn law_items_after_one_is_taken(
    db: DatabaseView,
    run_id: i64,
    clock: ClockView,
    i: int,
)
    requires
        db.wf(),
        0 <= i < db.items.len(),
    ensures
        ({
            let q = db.items[i];
            let a = frontier::items_claimed(db.items, run_id, clock)[i];
            let next = frontier::next_item(db.items, run_id, clock);
            let taken = next is Some && q.run_id == run_id && next->0.handle == q.handle;
            &&& taken ==> may_be_taken(q, run_id, clock) && next->0.depth == q.depth
                && next->0.attempts == q.attempts && a == (ItemView {
                status: JobStatus::Processing,
                attempts: (q.attempts + 1) as u32,
                locked_at: Some(clock.now),
                last_error: None,
                ..q
            })
            &&& !taken && !is_abandoned(q, run_id, clock) ==> a == q
            &&& !taken && is_abandoned(q, run_id, clock) ==> a == (ItemView {
                status: if q.attempts >= 3 {
                    JobStatus::Failed
                } else {
                    JobStatus::Retry
                },
                locked_at: None,
                last_error: if q.last_error is Some {
                    q.last_error
                } else {
                    Some("stale processing lock reclaimed"@)
                },
                ..q
            })
        }),
{
    frontier::law_frontier_claim_takes_one(db, run_id, clock, i);
    lemma_may_be_taken(db.items, run_id, clock, i);
    let fresh = frontier::items_refreshed(db.items, run_id, clock);
    let p = frontier::open_item(run_id);
    if frontier::next_item(db.items, run_id, clock) is Some {
        queue::lemma_chosen_members(
            fresh,
            p,
            frontier::item_order(),
            frontier::item_directions(),
        );
        let v = frontier::items_waiting(db.items, run_id, clock)[0];
        assert(p(v));
        assert(fresh[i] == frontier::item_reclaimed(run_id, clock.stale_before)(db.items[i]));
        let after = frontier::items_claimed(db.items, run_id, clock);
        assert(after[i] == frontier::item_taken(
            run_id,
            v.handle,
            (v.attempts + 1) as u32,
            clock.now,
        )(fresh[i]));
    }
}

/// Where an item is taken, it is one of the run that may be taken.
pub proof fn law_taken_item_is_one_of_the_run(
    items: Seq<ItemView>,
    run_id: i64,
    clock: ClockView,
) -> (i: int)
    requires
        frontier::next_item(items, run_id, clock) is Some,
    ensures
        0 <= i < items.len(),
        may_be_taken(items[i], run_id, clock),
        frontier::next_item(items, run_id, clock)->0.handle == items[i].handle,
        frontier::next_item(items, run_id, clock)->0.depth == items[i].depth,
        frontier::next_item(items, run_id, clock)->0.attempts == items[i].attempts,
{
    let fresh = frontier::items_refreshed(items, run_id, clock);
    let p = frontier::open_item(run_id);
    queue::lemma_chosen_members(fresh, p, frontier::item_order(), frontier::item_directions());
    let v = frontier::items_waiting(items, run_id, clock)[0];
    assert(fresh.contains(v) && p(v));
    let i = choose|i: int| 0 <= i < fresh.len() && fresh[i] == v;
    lemma_may_be_taken(items, run_id, clock, i);
    i
}

/// Marking an item as crawled notes the time and frees it; marking it as not
/// successful frees it, keeps the first 1500 characters of the error, and lets it
/// wait again before the third try and fail after it. Items of other runs and other
/// items of the run stay.
pub proof fn law_marking_an_item(
    items: Seq<ItemView>,
    run_id: i64,
    handle: Seq<char>,
    at: Seq<char>,
    error: Seq<char>,
    k: int,
)
    requires
        0 <= k < items.len(),
    ensures
        ({
            let v = items[k];
            let mine = v.run_id == run_id && v.handle == handle;
            let done = items.map_values(frontier::item_finished(run_id, handle, at))[k];
            let failed = items.map_values(frontier::item_unsuccessful(run_id, handle, error))[k];
            &&& !mine ==> done == v && failed == v
            &&& mine ==> done == (ItemView {
                status: JobStatus::Done,
                scraped_at: Some(at),
                locked_at: None,
                last_error: None,
                ..v
            })
            &&& mine ==> failed == (ItemView {
                status: if v.attempts >= 3 {
                    JobStatus::Failed
                } else {
                    JobStatus::Retry
                },
                locked_at: None,
                last_error: failed.last_error,
                ..v
            })
            &&& mine && error.len() <= 1500 ==> failed.last_error == Some(error)
            &&& mine && error.len() > 1500 ==> failed.last_error == Some(error.take(1500))
        }),
{
}

/// Going deeper adds one item for each account that is not in the run, at the end
/// and at the given depth, untried, found at the given creator at the present; and
/// every account is in the run then.
pub proof fn law_going_deeper(
    items: Seq<ItemView>,
    run_id: i64,
    depth: u8,
    source: Seq<char>,
    accounts: Seq<Seq<char>>,
    now: Seq<char>,
    k: int,
    h: Seq<char>,
)
    ensures
        ({
            let all = frontier::with_deeper(items, run_id, depth, source, accounts, now);
            &&& all.len() >= items.len()
            &&& 0 <= k < items.len() ==> all[k] == items[k]
            &&& items.len() <= k < all.len() ==> accounts.contains(all[k].handle) && !in_run(
                items,
                run_id,
                all[k].handle,
            ) && all[k] == (ItemView {
                run_id: run_id,
                handle: all[k].handle,
                depth: depth,
                discovered_from: Some(source),
                found_at: now,
                status: JobStatus::Pending,
                attempts: 0,
                locked_at: None,
                scraped_at: None,
                last_error: None,
            })
            &&& accounts.contains(h) ==> in_run(all, run_id, h)
        }),
    decreases accounts.len(),
{
    let all = frontier::with_deeper(items, run_id, depth, source, accounts, now);
    frontier::law_deeper_adds_only(items, run_id, depth, source, accounts, now);
    if 0 <= k < items.len() {
        assert(all.take(items.len() as int)[k] == items[k]);
    }
    lemma_in_run(all, run_id, h);
    if accounts.len() > 0 && items.len() <= k < all.len() {
        let rest = frontier::with_deeper(items, run_id, depth, source, accounts.drop_last(), now);
        law_going_deeper(items, run_id, depth, source, accounts.drop_last(), now, k, h);
        frontier::law_deeper_adds_only(
            items,
            run_id,
            depth,
            source,
            accounts.drop_last(),
            now,
        );
        if k < rest.len() {
            assert(all[k] == rest[k]);
        } else {
            let last = accounts.last();
            lemma_in_run(rest, run_id, last);
            if in_run(items, run_id, last) {
                let m = choose|m: int|
                    0 <= m < items.len() && (#[trigger] items[m]).run_id == run_id
                        && items[m].handle == last;
                assert(rest.take(items.len() as int)[m] == items[m]);
                assert(rest[m] == items[m]);
                assert(in_run(rest, run_id, last));
            }
        }
    }
}

/// The handle is in the run.
pub open spec fn in_run(items: Seq<ItemView>, run_id: i64, handle: Seq<char>) -> bool {
    exists|k: int|
        0 <= k < items.len() && (#[trigger] items[k]).run_id == run_id && items[k].handle == handle
}

proof fn lemma_in_run(items: Seq<ItemView>, run_id: i64, handle: Seq<char>)
    ensures
        table::some_row(items, rows::item_is(run_id, handle)) == in_run(items, run_id, handle),
{
    let p = rows::item_is(run_id, handle);
    if table::some_row(items, p) {
        let k = choose|k: int| 0 <= k < items.len() && p(#[trigger] items[k]);
        assert(items[k].run_id == run_id && items[k].handle == handle);
    }
    if in_run(items, run_id, handle) {
        let k = choose|k: int|
            0 <= k < items.len() && (#[trigger] items[k]).run_id == run_id && items[k].handle
                == handle;
        assert(p(items[k]));
    }
}

} // verus!
