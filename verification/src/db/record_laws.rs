//! What holds after a creator was kept.

use vstd::prelude::*;
use crate::db::creator_lists;
use crate::db::filters::DbError;
use crate::db::outcomes;
use crate::db::queue;
use crate::db::record;
use crate::db::record::{RecordCreatorOptions, RecordOutcome};
use crate::db::rows;
use crate::db::rows::{
    CreatorView, DatabaseView, FollowView, JobStatus, QueueView,
};
use crate::db::table;
use crate::handles;
use crate::lists;
use crate::models;
use crate::models::CrawlView;
use crate::moment;
use crate::order;
use crate::ranking;
use crate::ranking::SortView;
use crate::search;
use crate::text;

verus! {

// ---------------------------------------------------------------------------
// The creator
// ---------------------------------------------------------------------------
/// The creator that was kept is read back as it was crawled; what was noted of
/// contacts and of the country stays. Every other creator stays as it was.
pub proof fn law_recorded_creator_reads_back(
    db: DatabaseView,
    crawl: CrawlView,
    handle: Seq<char>,
    options: RecordCreatorOptions,
    now: Seq<char>,
    other: Seq<char>,
)
    requires
        db.wf(),
        other != handle,
    ensures
        ({
            let after = record::recorded(db, crawl, handle, options, now);
            let new = record::crawled(crawl, handle);
            let found = table::first(after.creators, rows::creator_is(handle));
            &&& match table::first(db.creators, rows::creator_is(handle)) {
                Some(old_row) => found == Some(record::recrawled(new)(old_row)),
                None => found == Some(new),
            }
            &&& table::first(after.creators, rows::creator_is(other)) == table::first(
                db.creators,
                rows::creator_is(other),
            )
            &&& rows::has_creator(after.creators, handle)
        }),
{
    let new = record::crawled(crawl, handle);
    let p = rows::creator_is(handle);
    let q = rows::creator_is(other);
    let before = db.creators;
    let after = record::with_creator(before, new);
    table::lemma_no_first(before, p);
    table::lemma_no_first(before, q);
    table::lemma_no_first(after, q);
    if rows::has_creator(before, handle) {
        let k = choose|k: int| table::is_first(before, p, k);
        assert(table::is_first(before, p, k)) by {
            let i = choose|i: int| 0 <= i < before.len() && p(#[trigger] before[i]);
            table::lemma_some_first(before, p, i);
        }
        assert forall|j: int| 0 <= j < k implies !p(#[trigger] after[j]) by {
            assert(after[j] == record::recrawled(new)(before[j]));
            assert(!p(before[j]));
        }
        assert(after[k] == record::recrawled(new)(before[k]));
        assert(table::is_first(after, p, k));
        table::lemma_first(before, p, k);
        table::lemma_first(after, p, k);
        lemma_first_kept(before, after, q);
    } else {
        let n = before.len() as int;
        assert forall|j: int| 0 <= j < n implies !p(#[trigger] after[j]) by {
            assert(after[j] == before[j]);
            if p(before[j]) {
                assert(table::some_row(before, p));
            }
        }
        assert(table::is_first(after, p, n));
        table::lemma_first(after, p, n);
        if table::some_row(before, q) {
            let i = choose|i: int| 0 <= i < before.len() && q(#[trigger] before[i]);
            table::lemma_some_first(before, q, i);
            let k = choose|k: int| table::is_first(before, q, k);
            assert forall|j: int| 0 <= j < k implies !q(#[trigger] after[j]) by {
                assert(!q(before[j]));
            }
            assert(table::is_first(after, q, k));
            table::lemma_first(before, q, k);
            table::lemma_first(after, q, k);
        } else {
            table::lemma_some_row_push(before, new, q);
        }
    }
}

/// Rows that meet a condition and stay as they are, while others stay without
/// meeting it, keep the first of them.
proof fn lemma_first_kept<V>(before: Seq<V>, after: Seq<V>, q: spec_fn(V) -> bool)
    requires
        before.len() == after.len(),
        forall|i: int|
            0 <= i < before.len() ==> q(#[trigger] after[i]) == q(before[i]) && (q(before[i])
                ==> after[i] == before[i]),
    ensures
        table::first(after, q) == table::first(before, q),
{
    table::lemma_no_first(before, q);
    table::lemma_no_first(after, q);
    if table::some_row(before, q) {
        let i = choose|i: int| 0 <= i < before.len() && q(#[trigger] before[i]);
        table::lemma_some_first(before, q, i);
        let k = choose|k: int| table::is_first(before, q, k);
        assert(q(after[k]));
        assert forall|j: int| 0 <= j < k implies !q(#[trigger] after[j]) by {
            assert(!q(before[j]));
        }
        assert(table::is_first(after, q, k));
        table::lemma_first(before, q, k);
        table::lemma_first(after, q, k);
    } else if table::some_row(after, q) {
        let i = choose|i: int| 0 <= i < after.len() && q(#[trigger] after[i]);
        assert(q(before[i]));
    }
}

// ---------------------------------------------------------------------------
// Posts and followed accounts
// ---------------------------------------------------------------------------
proof fn lemma_filter_append<V>(a: Seq<V>, b: Seq<V>, p: spec_fn(V) -> bool)
    ensures
        (a + b).filter(p) == a.filter(p) + b.filter(p),
    decreases b.len(),
{
    if b.len() == 0 {
        reveal(Seq::filter);
        assert(a + b =~= a);
        assert(a.filter(p) + b.filter(p) =~= a.filter(p));
    } else {
        let rest = b.drop_last();
        lemma_filter_append(a, rest, p);
        assert(a + b =~= (a + rest).push(b.last()));
        assert(b =~= rest.push(b.last()));
        search::lemma_filter_push(a + rest, p, b.last());
        search::lemma_filter_push(rest, p, b.last());
        assert((a + b).filter(p) =~= a.filter(p) + b.filter(p));
    }
}

pub proof fn lemma_filter_all<V>(s: Seq<V>, p: spec_fn(V) -> bool)
    requires
        forall|i: int| 0 <= i < s.len() ==> p(#[trigger] s[i]),
    ensures
        s.filter(p) == s,
    decreases s.len(),
{
    reveal(Seq::filter);
    if s.len() > 0 {
        let rest = s.drop_last();
        assert forall|i: int| 0 <= i < rest.len() implies p(#[trigger] rest[i]) by {
            assert(rest[i] == s[i]);
        }
        lemma_filter_all(rest, p);
        assert(p(s[s.len() - 1]));
        assert(s =~= rest.push(s.last()));
    } else {
        assert(s.filter(p) =~= s);
    }
}

proof fn lemma_filter_none<V>(s: Seq<V>, p: spec_fn(V) -> bool)
    requires
        forall|i: int| 0 <= i < s.len() ==> !p(#[trigger] s[i]),
    ensures
        s.filter(p).len() == 0,
    decreases s.len(),
{
    reveal(Seq::filter);
    if s.len() > 0 {
        let rest = s.drop_last();
        assert forall|i: int| 0 <= i < rest.len() implies !p(#[trigger] rest[i]) by {
            assert(rest[i] == s[i]);
        }
        lemma_filter_none(rest, p);
        assert(!p(s[s.len() - 1]));
    }
}

/// Of rows that are kept because they do not meet one condition, those that
/// meet another that excludes it are all that meet the other.
proof fn lemma_filter_excluding<V>(s: Seq<V>, gone: spec_fn(V) -> bool, p: spec_fn(V) -> bool)
    requires
        forall|v: V| #[trigger] p(v) ==> !gone(v),
    ensures
        table::without(s, gone).filter(p) == s.filter(p),
    decreases s.len(),
{
    reveal(Seq::filter);
    if s.len() > 0 {
        let rest = s.drop_last();
        let last = s.last();
        lemma_filter_excluding(rest, gone, p);
        assert(s =~= rest.push(last));
        search::lemma_filter_push(rest, table::opposite(gone), last);
        search::lemma_filter_push(rest, p, last);
        search::lemma_filter_push(table::without(rest, gone), p, last);
    }
}

/// The posts of the creator are those of the crawl, in their order; the posts
/// of every other creator stay as they were.
pub proof fn law_recorded_posts_read_back(
    db: DatabaseView,
    crawl: CrawlView,
    handle: Seq<char>,
    options: RecordCreatorOptions,
    now: Seq<char>,
    other: Seq<char>,
)
    requires
        other != handle,
    ensures
        ({
            let after = record::recorded(db, crawl, handle, options, now).videos;
            &&& after.filter(record::video_of(handle)) == record::kept_videos(
                handle,
                crawl.snapshot.videos,
                crawl.most_viral_video_url,
            )
            &&& after.filter(record::video_of(other)) == db.videos.filter(record::video_of(other))
        }),
{
    let p = record::video_of(handle);
    let q = record::video_of(other);
    let kept = table::without(db.videos, p);
    let new = record::kept_videos(handle, crawl.snapshot.videos, crawl.most_viral_video_url);
    lemma_filter_append(kept, new, p);
    lemma_filter_append(kept, new, q);
    table::lemma_filter_members(db.videos, table::opposite(p));
    lemma_filter_none(kept, p);
    lemma_filter_all(new, p);
    lemma_filter_none(new, q);
    lemma_filter_excluding(db.videos, p, q);
    let after = record::recorded(db, crawl, handle, options, now).videos;
    assert(after.filter(p) =~= new);
    assert(after.filter(q) =~= db.videos.filter(q));
}

proof fn lemma_lower_handle(h: Seq<char>)
    requires
        handles::is_handle(h),
    ensures
        text::lower(h) == h,
{
    assert(text::lower(h) =~= h) by {
        assert forall|i: int| 0 <= i < h.len() implies text::lower(h)[i] == h[i] by {
            assert(handles::is_handle_char(h[i]));
        }
    }
}

/// The accounts that a creator follows are ascending handles.
pub proof fn lemma_followed(handle: Seq<char>, following: Seq<Seq<char>>)
    ensures
        order::ascending(record::followed(handle, following)),
        forall|i: int|
            0 <= i < record::followed(handle, following).len() ==> {
                let h = #[trigger] record::followed(handle, following)[i];
                handles::is_handle(h) && h != handle && handles::normalized_handles(
                    following,
                ).contains(h)
            },
{
    let list = handles::normalized_handles(following);
    let p = record::other_than(handle);
    order::lemma_sorted_set(
        lists::present(following.map_values(|s: Seq<char>| handles::normalized_handle(s))),
    );
    lemma_ascending_filter(list, p);
    table::lemma_filter_members(list, p);
    assert forall|i: int| 0 <= i < record::followed(handle, following).len() implies {
        let h = #[trigger] record::followed(handle, following)[i];
        handles::is_handle(h) && h != handle && list.contains(h)
    } by {
        let h = list.filter(p)[i];
        assert(list.contains(h) && p(h));
        handles::law_normalized_handles_members(following, h);
    }
}

proof fn lemma_ascending_filter(s: Seq<Seq<char>>, p: spec_fn(Seq<char>) -> bool)
    requires
        order::ascending(s),
    ensures
        order::ascending(s.filter(p)),
    decreases s.len(),
{
    reveal(Seq::filter);
    let lt = order::text_order();
    if s.len() > 0 {
        let rest = s.drop_last();
        let last = s.last();
        assert(order::ascending(rest)) by {
            assert forall|i: int, j: int| 0 <= i < j < rest.len() implies lt(
                #[trigger] rest[i],
                #[trigger] rest[j],
            ) by {
                assert(lt(s[i], s[j]));
            }
        }
        lemma_ascending_filter(rest, p);
        table::lemma_filter_members(rest, p);
        let kept = rest.filter(p);
        if p(last) {
            let all = s.filter(p);
            assert(all =~= kept.push(last));
            assert forall|i: int, j: int| 0 <= i < j < all.len() implies lt(
                #[trigger] all[i],
                #[trigger] all[j],
            ) by {
                if j < kept.len() {
                    assert(lt(kept[i], kept[j]));
                } else {
                    assert(rest.contains(kept[i]));
                    let k = choose|k: int| 0 <= k < rest.len() && rest[k] == kept[i];
                    assert(lt(s[k], s[s.len() - 1]));
                }
            }
        }
    }
}

/// The rows of the followed accounts stand in the order in which the accounts
/// are listed.
proof fn lemma_followed_in_order(handle: Seq<char>, following: Seq<Seq<char>>)
    ensures
        ({
            let new = record::kept_follows(handle, record::followed(handle, following));
            let keys = new.map_values(creator_lists::account_order());
            forall|i: int, j: int|
                0 <= i < j < keys.len() ==> !ranking::key_before(
                    #[trigger] keys[j],
                    #[trigger] keys[i],
                    seq![false],
                    0,
                )
        }),
{
    let accounts = record::followed(handle, following);
    let new = record::kept_follows(handle, accounts);
    let keys = new.map_values(creator_lists::account_order());
    let lt = order::text_order();
    lemma_followed(handle, following);
    assert forall|i: int, j: int| 0 <= i < j < keys.len() implies !ranking::key_before(
        #[trigger] keys[j],
        #[trigger] keys[i],
        seq![false],
        0,
    ) by {
        let a = accounts[i];
        let b = accounts[j];
        lemma_lower_handle(a);
        lemma_lower_handle(b);
        assert(lt(a, b));
        order::lemma_before_asymmetric(a, b);
        order::lemma_before_irreflexive(a);
        assert(keys[i] =~= seq![SortView::Text(a)]);
        assert(keys[j] =~= seq![SortView::Text(b)]);
        reveal_with_fuel(ranking::key_before, 2);
    }
}

/// The rows of the creator whose followed accounts were replaced are the new
/// ones. Those of every other creator stay as they were.
proof fn lemma_follows_replaced(
    follows: Seq<FollowView>,
    handle: Seq<char>,
    accounts: Seq<Seq<char>>,
    other: Seq<char>,
)
    requires
        other != handle,
    ensures
        ({
            let after = record::with_follows(follows, handle, accounts);
            let q = record::follow_of(other);
            &&& after.filter(record::follow_of(handle)) == record::kept_follows(handle, accounts)
            &&& after.filter(q) == follows.filter(q)
        }),
{
    let p = record::follow_of(handle);
    let q = record::follow_of(other);
    let kept = table::without(follows, p);
    let new = record::kept_follows(handle, accounts);
    assert(kept.filter(p) + new.filter(p) =~= new) by {
        table::lemma_filter_members(follows, table::opposite(p));
        lemma_filter_none(kept, p);
        lemma_filter_all(new, p);
    }
    lemma_filter_append(kept, new, p);
    assert(kept.filter(q) + new.filter(q) =~= follows.filter(q)) by {
        lemma_filter_none(new, q);
        lemma_filter_excluding(follows, p, q);
    }
    lemma_filter_append(kept, new, q);
}

/// Rows of followed accounts that are already in order are read as they stand.
proof fn lemma_followed_read(
    follows: Seq<FollowView>,
    handle: Seq<char>,
    following: Seq<Seq<char>>,
)
    requires
        follows.filter(record::follow_of(handle)) == record::kept_follows(
            handle,
            record::followed(handle, following),
        ),
    ensures
        creator_lists::accounts_of(follows, handle) == record::followed(handle, following),
{
    let accounts = record::followed(handle, following);
    let rows = record::kept_follows(handle, accounts);
    let key = creator_lists::account_order();
    let down = seq![false];
    assert(table::chosen(follows, record::follow_of(handle), key, down) =~= rows) by {
        lemma_followed_in_order(handle, following);
        ranking::lemma_ranking_in_order(rows.map_values(key), down);
    }
    assert(rows.map_values(creator_lists::account_shown()) =~= accounts);
}

/// The accounts that the creator follows are those of the crawl in canonical
/// form, in ascending order, each once, and without the creator. What every
/// other creator follows stays as it was.
pub proof fn law_recorded_follows_read_back(
    db: DatabaseView,
    crawl: CrawlView,
    handle: Seq<char>,
    options: RecordCreatorOptions,
    now: Seq<char>,
    other: Seq<char>,
)
    requires
        other != handle,
    ensures
        ({
            let after = record::recorded(db, crawl, handle, options, now).follows;
            &&& creator_lists::accounts_of(after, handle) == record::followed(
                handle,
                crawl.snapshot.following,
            )
            &&& creator_lists::accounts_of(after, other) == creator_lists::accounts_of(
                db.follows,
                other,
            )
        }),
{
    let accounts = record::followed(handle, crawl.snapshot.following);
    let after = record::with_follows(db.follows, handle, accounts);
    lemma_follows_replaced(db.follows, handle, accounts, other);
    lemma_followed_read(after, handle, crawl.snapshot.following);
}

// ---------------------------------------------------------------------------
// Jobs
// ---------------------------------------------------------------------------
/// The creator's own job is done, and is not taken again.
pub proof fn law_recorded_job_is_done(
    db: DatabaseView,
    crawl: CrawlView,
    handle: Seq<char>,
    options: RecordCreatorOptions,
    now: Seq<char>,
    i: int,
)
    requires
        0 <= i < record::recorded(db, crawl, handle, options, now).queue.len(),
        record::recorded(db, crawl, handle, options, now).queue[i].handle == handle,
    ensures
        ({
            let job = record::recorded(db, crawl, handle, options, now).queue[i];
            &&& job.status == JobStatus::Done
            &&& job.scraped_at == Some(moment::rfc3339_written(crawl.scraped_at))
            &&& job.locked_at is None
            &&& job.last_error is None
            &&& !queue::is_open(job.status)
        }),
{
}

pub proof fn lemma_spread(
    creators: Seq<CreatorView>,
    jobs: Seq<QueueView>,
    accounts: Seq<Seq<char>>,
    from: Seq<char>,
    app: Option<Seq<char>>,
    now: Seq<char>,
)
    ensures
        ({
            let all = record::with_followed(creators, jobs, accounts, from, app, now);
            &&& all.len() >= jobs.len()
            &&& all.take(jobs.len() as int) == jobs
            &&& forall|i: int|
                jobs.len() <= i < all.len() ==> {
                    let q = #[trigger] all[i];
                    &&& q == queue::new_job(q.handle, Some(from), app, now, false)
                    &&& accounts.contains(q.handle)
                    &&& !rows::has_creator(creators, q.handle)
                    &&& !rows::in_queue(jobs, q.handle)
                }
            &&& forall|h: Seq<char>|
                #[trigger] accounts.contains(h) ==> rows::has_creator(creators, h)
                    || rows::in_queue(all, h)
        }),
    decreases accounts.len(),
{
    let all = record::with_followed(creators, jobs, accounts, from, app, now);
    if accounts.len() == 0 {
        assert(all.take(jobs.len() as int) =~= jobs);
    } else {
        let before = accounts.drop_last();
        let last = accounts.last();
        lemma_spread(creators, jobs, before, from, app, now);
        let rest = record::with_followed(creators, jobs, before, from, app, now);
        let job = queue::new_job(last, Some(from), app, now, false);
        assert(all.take(jobs.len() as int) =~= rest.take(jobs.len() as int));
        assert forall|i: int| jobs.len() <= i < all.len() implies {
            let q = #[trigger] all[i];
            &&& q == queue::new_job(q.handle, Some(from), app, now, false)
            &&& accounts.contains(q.handle)
            &&& !rows::has_creator(creators, q.handle)
            &&& !rows::in_queue(jobs, q.handle)
        } by {
            if i < rest.len() {
                assert(all[i] == rest[i]);
                assert(before.contains(rest[i].handle));
                let k = choose|k: int| 0 <= k < before.len() && before[k] == rest[i].handle;
                assert(accounts[k] == before[k]);
            } else {
                assert(accounts[accounts.len() - 1] == last);
                if rows::in_queue(jobs, last) {
                    let k = choose|k: int|
                        0 <= k < jobs.len() && rows::job_is(last)(#[trigger] jobs[k]);
                    assert(rest.take(jobs.len() as int)[k] == jobs[k]);
                    assert(rows::job_is(last)(rest[k]));
                }
            }
        }
        assert forall|h: Seq<char>| #[trigger] accounts.contains(h) implies rows::has_creator(
            creators,
            h,
        ) || rows::in_queue(all, h) by {
            table::lemma_some_row_push(rest, job, rows::job_is(h));
            if h != last {
                let k = choose|k: int| 0 <= k < accounts.len() && accounts[k] == h;
                assert(before[k] == h);
                assert(before.contains(h));
            }
        }
    }
}

/// Where the accounts that a creator follows are put into the queue, the creator
/// is classified as promoting an app, and each of the accounts is then known or
/// in the queue. The jobs that are added are for accounts
/// that were in neither place; they wait, and say where they were found and
/// which app to expect. The other jobs stay where they are.
pub proof fn law_followed_accounts_are_queued(
    db: DatabaseView,
    crawl: CrawlView,
    handle: Seq<char>,
    options: RecordCreatorOptions,
    now: Seq<char>,
)
    requires
        record::spreads(db, crawl, options),
    ensures
        ({
            let after = record::recorded(db, crawl, handle, options, now);
            let accounts = record::followed(handle, crawl.snapshot.following);
            let app = models::app_candidate(crawl.classification);
            &&& record::promotes(crawl.classification)
            &&& record::jobs_spread(db, crawl, handle, options, now) == after.queue.len()
                - db.queue.len()
            &&& after.queue.len() >= db.queue.len()
            &&& forall|i: int|
                0 <= i < db.queue.len() && (#[trigger] db.queue[i]).handle != handle
                    ==> after.queue[i] == db.queue[i]
            &&& forall|i: int|
                db.queue.len() <= i < after.queue.len() ==> {
                    let q = #[trigger] after.queue[i];
                    &&& q == queue::new_job(q.handle, Some(handle), app, now, false)
                    &&& accounts.contains(q.handle)
                    &&& q.handle != handle
                    &&& !rows::has_creator(after.creators, q.handle)
                    &&& !rows::in_queue(db.queue, q.handle)
                }
            &&& forall|h: Seq<char>|
                #[trigger] accounts.contains(h) ==> rows::has_creator(after.creators, h)
                    || rows::in_queue(after.queue, h)
        }),
{
    let after = record::recorded(db, crawl, handle, options, now);
    let accounts = record::followed(handle, crawl.snapshot.following);
    let app = models::app_candidate(crawl.classification);
    let mid = record::with_followed(after.creators, db.queue, accounts, handle, app, now);
    let scraped_at = moment::rfc3339_written(crawl.scraped_at);
    let change = outcomes::finished(handle, scraped_at);
    lemma_spread(after.creators, db.queue, accounts, handle, app, now);
    lemma_followed(handle, crawl.snapshot.following);
    assert(after.queue == mid.map_values(change));
    assert forall|i: int|
        0 <= i < db.queue.len() && (#[trigger] db.queue[i]).handle != handle implies after.queue[i]
        == db.queue[i] by {
        assert(mid.take(db.queue.len() as int)[i] == db.queue[i]);
        assert(mid[i] == db.queue[i]);
    }
    assert forall|i: int| db.queue.len() <= i < after.queue.len() implies {
        let q = #[trigger] after.queue[i];
        &&& q == queue::new_job(q.handle, Some(handle), app, now, false)
        &&& accounts.contains(q.handle)
        &&& q.handle != handle
        &&& !rows::has_creator(after.creators, q.handle)
        &&& !rows::in_queue(db.queue, q.handle)
    } by {
        let q = mid[i];
        assert(accounts.contains(q.handle));
        let k = choose|k: int| 0 <= k < accounts.len() && accounts[k] == q.handle;
        assert(accounts[k] != handle);
        assert(after.queue[i] == change(q));
    }
    assert forall|h: Seq<char>| #[trigger] accounts.contains(h) implies rows::has_creator(
        after.creators,
        h,
    ) || rows::in_queue(after.queue, h) by {
        table::lemma_some_row_map(mid, change, rows::job_is(h));
    }
}

/// Where the accounts that a creator follows are not put into the queue, keeping
/// the creator adds no job: every job that is there was there before.
pub proof fn law_not_spreading_adds_no_jobs(
    db: DatabaseView,
    crawl: CrawlView,
    handle: Seq<char>,
    options: RecordCreatorOptions,
    now: Seq<char>,
    h: Seq<char>,
)
    requires
        !record::spreads(db, crawl, options),
    ensures
        record::jobs_spread(db, crawl, handle, options, now) == 0,
        record::recorded(db, crawl, handle, options, now).queue.len() <= db.queue.len(),
        rows::in_queue(record::recorded(db, crawl, handle, options, now).queue, h)
            ==> rows::in_queue(db.queue, h),
{
    let after = record::recorded(db, crawl, handle, options, now);
    let mid = record::jobs_after(db, after.creators, crawl, handle, options, now);
    let change = outcomes::finished(handle, moment::rfc3339_written(crawl.scraped_at));
    let p = rows::job_is(h);
    table::lemma_some_row_map(mid, change, p);
    let kept = table::opposite(outcomes::prunable_from(handle));
    db.queue.lemma_filter_len(kept);
    table::lemma_filter_members(db.queue, kept);
    if rows::in_queue(mid, h) {
        let i = choose|i: int| 0 <= i < mid.len() && p(#[trigger] mid[i]);
        if record::prunes(crawl, options) {
            assert(db.queue.contains(db.queue.filter(kept)[i]));
            let k = choose|k: int| 0 <= k < db.queue.len() && db.queue[k] == mid[i];
            assert(p(db.queue[k]));
        }
    }
}

/// The crawl goes on only from creators who are classified as promoting an app:
/// keeping one who is not, or whose app has no name, counts no account as put
/// into the queue, and every job that is there was there before.
pub proof fn law_no_app_adds_no_jobs(
    before: DatabaseView,
    after: DatabaseView,
    crawl: CrawlView,
    options: RecordCreatorOptions,
    now: Seq<char>,
    r: Result<RecordOutcome, DbError>,
)
    requires
        record::record_result(before, after, crawl, options, now, r),
        !crawl.classification.promotes_app || models::app_candidate(crawl.classification) is None,
    ensures
        r matches Ok(outcome) ==> outcome.enqueued_following_count == 0,
        after.queue.len() <= before.queue.len(),
        forall|h: Seq<char>| #[trigger]
            rows::in_queue(after.queue, h) ==> rows::in_queue(before.queue, h),
{
    if r is Ok {
        let handle = handles::normalized_handle(crawl.snapshot.handle)->0;
        assert forall|h: Seq<char>| #[trigger] rows::in_queue(after.queue, h) implies rows::in_queue(
            before.queue,
            h,
        ) by {
            law_not_spreading_adds_no_jobs(before, crawl, handle, options, now, h);
        }
        law_not_spreading_adds_no_jobs(before, crawl, handle, options, now, Seq::empty());
    }
}

/// Where the classification of a creator names no app, the jobs that were found
/// at it and that nobody has worked on are dropped, if that is asked for.
pub proof fn law_no_app_drops_children(
    db: DatabaseView,
    crawl: CrawlView,
    handle: Seq<char>,
    options: RecordCreatorOptions,
    now: Seq<char>,
    i: int,
)
    requires
        models::app_candidate(crawl.classification) is None,
        options.prune_no_app_children,
        0 <= i < record::recorded(db, crawl, handle, options, now).queue.len(),
    ensures
        ({
            let job = record::recorded(db, crawl, handle, options, now).queue[i];
            job.discovered_from == Some(handle) ==> job.status == JobStatus::Processing
                || job.status == JobStatus::Done || job.status == JobStatus::Excluded
        }),
{
    let after = record::recorded(db, crawl, handle, options, now);
    let kept = table::opposite(outcomes::prunable_from(handle));
    let mid = db.queue.filter(kept);
    table::lemma_filter_members(db.queue, kept);
    let change = outcomes::finished(handle, moment::rfc3339_written(crawl.scraped_at));
    assert(after.queue[i] == change(mid[i]));
    assert(kept(mid[i]));
}

/// Keeping a creator keeps the number of tries bounded.
pub proof fn law_recording_keeps_attempts_bounded(
    db: DatabaseView,
    crawl: CrawlView,
    handle: Seq<char>,
    options: RecordCreatorOptions,
    now: Seq<char>,
)
    requires
        outcomes::attempts_bounded(db.queue),
    ensures
        outcomes::attempts_bounded(record::recorded(db, crawl, handle, options, now).queue),
{
    let after = record::recorded(db, crawl, handle, options, now);
    let mid = record::jobs_after(db, after.creators, crawl, handle, options, now);
    let scraped_at = moment::rfc3339_written(crawl.scraped_at);
    assert(outcomes::attempts_bounded(mid)) by {
        assert forall|i: int| 0 <= i < mid.len() implies {
            let q = #[trigger] mid[i];
            &&& q.attempts <= queue::MAX_ATTEMPTS
            &&& q.status == JobStatus::Pending || q.status == JobStatus::Retry || q.status
                == JobStatus::Excluded ==> q.attempts < queue::MAX_ATTEMPTS
        } by {
            if record::spreads(db, crawl, options) {
                let accounts = record::followed(handle, crawl.snapshot.following);
                let app = models::app_candidate(crawl.classification);
                lemma_spread(after.creators, db.queue, accounts, handle, app, now);
                if i < db.queue.len() {
                    assert(mid.take(db.queue.len() as int)[i] == db.queue[i]);
                }
            } else if record::prunes(crawl, options) {
                let kept = table::opposite(outcomes::prunable_from(handle));
                table::lemma_filter_members(db.queue, kept);
                assert(db.queue.contains(db.queue.filter(kept)[i]));
                let k = choose|k: int| 0 <= k < db.queue.len() && db.queue[k] == mid[i];
                assert(db.queue[k].attempts <= queue::MAX_ATTEMPTS);
            }
        }
    }
    outcomes::law_marking_keeps_attempts_bounded(mid, handle, scraped_at);
}

} // verus!
