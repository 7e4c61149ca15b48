//! What a crawl reads, counts and keeps.

use vstd::prelude::*;
use crate::crawler::content;
use crate::crawler::jobs;
use crate::crawler::jobs::{CountryReply, CrawlResult, QueueRunFilters};
use crate::crawler::run;
use crate::crawler::run::{CrawlOutcome, Phase, Run, RunSummary};
use crate::db::creator_lists;
use crate::db::frontier;
use crate::db::frontier_laws;
use crate::db::known_list_laws;
use crate::db::queue::QueueClaimFilters;
use crate::db::record;
use crate::db::record::RecordOutcome;
use crate::db::rows::{DatabaseView, FollowView, ItemView, JobStatus};
use crate::handles;
use crate::models;
use crate::models::{
    ContentView, CreatorSnapshot, CreatorStats, PostView, TiktokPost, TiktokPostKind,
};
use crate::numbers;
use crate::search;
use crate::stats;
use crate::text;

verus! {

// ---------------------------------------------------------------------------
// View counts
// ---------------------------------------------------------------------------
/// The number of views of the post.
pub open spec fn views_of_post() -> spec_fn(TiktokPost) -> u64 {
    |p: TiktokPost| p.views
}

/// The average is the sum of all views over the number of posts.
pub proof fn law_average_is_of_all_posts(s: CreatorStats, posts: Seq<TiktokPost>)
    requires
        stats::are_stats_of(s, models::post_views(posts)),
    ensures
        s.avg_views.total == posts.fold_left(0int, |sum: int, p: TiktokPost| sum + p.views),
        s.avg_views.count == posts.len(),
{
    let all = models::post_views(posts);
    lemma_total(posts);
    if posts.len() == 0 {
        assert(stats::views_of(all) =~= Seq::<u64>::empty());
    }
}

proof fn lemma_total(posts: Seq<TiktokPost>)
    ensures
        stats::total(stats::views_of(models::post_views(posts))) == posts.fold_left(
            0int,
            |sum: int, p: TiktokPost| sum + p.views,
        ),
    decreases posts.len(),
{
    let views = stats::views_of(models::post_views(posts));
    if posts.len() > 0 {
        lemma_total(posts.drop_last());
        assert(views.drop_last() =~= stats::views_of(models::post_views(posts.drop_last())));
        assert(views.last() == posts.last().views);
    }
}

/// The middle views are those in the middle of all views in ascending order: of an
/// odd number of posts the one in the middle, of an even number the two around it.
pub proof fn law_middle_of_the_ordered_views(s: CreatorStats, posts: Seq<TiktokPost>)
    requires
        stats::are_stats_of(s, models::post_views(posts)),
    ensures
        posts.len() == 0 ==> s.median_views.low == 0 && s.median_views.high == 0,
        posts.len() > 0 ==> exists|sorted: Seq<u64>|
            {
                &&& #[trigger] sorted.to_multiset() == posts.map_values(
                    views_of_post(),
                ).to_multiset()
                &&& sorted.len() == posts.len()
                &&& forall|i: int, j: int|
                    0 <= i < j < sorted.len() ==> #[trigger] sorted[i] <= #[trigger] sorted[j]
                &&& posts.len() % 2 == 1 ==> s.median_views.low == sorted[(posts.len() - 1) / 2]
                    && s.median_views.high == s.median_views.low
                &&& posts.len() % 2 == 0 ==> s.median_views.low == sorted[posts.len() / 2 - 1]
                    && s.median_views.high == sorted[posts.len() as int / 2]
            },
{
    broadcast use vstd::seq_lib::group_to_multiset_ensures;

    if posts.len() > 0 {
        let views = stats::views_of(models::post_views(posts));
        assert(views =~= posts.map_values(views_of_post()));
        let sorted = stats::in_order(views);
        views.lemma_sort_by_ensures(stats::at_most());
        assert(sorted.to_multiset().len() == views.to_multiset().len());
        assert(sorted.len() == posts.len());
        assert forall|i: int, j: int| 0 <= i < j < sorted.len() implies #[trigger] sorted[i]
            <= #[trigger] sorted[j] by {
            assert(stats::at_most()(sorted[i], sorted[j]));
        }
        assert((sorted.len() - 1) / 2 == if posts.len() % 2 == 1 {
            posts.len() as int / 2
        } else {
            posts.len() as int / 2 - 1
        });
        assert(sorted.to_multiset() == posts.map_values(views_of_post()).to_multiset());
    }
}

/// The post at `i` has the views and the address that are noted, none before it has
/// more views, and all after it have fewer.
pub open spec fn is_most_viral(s: CreatorStats, posts: Seq<TiktokPost>, i: int) -> bool {
    &&& 0 <= i < posts.len()
    &&& models::opt_text(s.most_viral_video_url) == Some(posts[i].url@)
    &&& s.most_viral_video_views == Some(posts[i].views)
    &&& forall|j: int| 0 <= j < i ==> (#[trigger] posts[j]).views <= posts[i].views
    &&& forall|j: int| i < j < posts.len() ==> (#[trigger] posts[j]).views < posts[i].views
}

/// The most viral post is one that no other has more views than, and the last of
/// those that have as many; its address and its views are noted.
pub proof fn law_most_viral_post(s: CreatorStats, posts: Seq<TiktokPost>)
    requires
        stats::are_stats_of(s, models::post_views(posts)),
    ensures
        posts.len() == 0 ==> s.most_viral_video_url is None && s.most_viral_video_views is None,
        posts.len() > 0 ==> exists|i: int| #[trigger] is_most_viral(s, posts, i),
{
    if posts.len() > 0 {
        let all = models::post_views(posts);
        let views = stats::views_of(all);
        let i = choose|i: int|
            {
                &&& #[trigger] stats::last_greatest(views, i)
                &&& models::opt_text(s.most_viral_video_url) == Some(all[i].url)
                &&& s.most_viral_video_views == Some(all[i].views)
            };
        assert(views[i] == posts[i].views);
        assert(all[i] == posts[i]@);
        assert forall|j: int| 0 <= j < i implies (#[trigger] posts[j]).views <= posts[i].views by {
            assert(views[j] <= views[i]);
        }
        assert forall|j: int| i < j < posts.len() implies (#[trigger] posts[j]).views
            < posts[i].views by {
            assert(views[j] < views[i]);
        }
        assert(is_most_viral(s, posts, i));
    }
}

// ---------------------------------------------------------------------------
// Which posts are read, and how
// ---------------------------------------------------------------------------
/// A classification looks at the first three videos that are not pinned, or at all
/// of them where there are fewer.
pub proof fn law_posts_for_a_classification(snapshot: CreatorSnapshot)
    ensures
        ({
            let fresh = snapshot.videos@.filter(
                |p: TiktokPost| p.kind == TiktokPostKind::Video && !p.is_pinned,
            );
            let read = content::selected(snapshot@.videos);
            &&& fresh.len() <= 3 ==> read == models::post_views(fresh)
            &&& fresh.len() > 3 ==> read == models::post_views(fresh.take(3))
        }),
{
    let p = |p: TiktokPost| p.kind == TiktokPostKind::Video && !p.is_pinned;
    let posts = snapshot.videos@;
    lemma_filter_of_views(posts, p);
    let fresh = posts.filter(p);
    if fresh.len() > 3 {
        assert(models::post_views(fresh).take(3) =~= models::post_views(fresh.take(3)));
    }
}

proof fn lemma_filter_of_views(posts: Seq<TiktokPost>, p: spec_fn(TiktokPost) -> bool)
    requires
        p == (|p: TiktokPost| p.kind == TiktokPostKind::Video && !p.is_pinned),
    ensures
        models::post_views(posts).filter(content::is_fresh_video()) == models::post_views(
            posts.filter(p),
        ),
    decreases posts.len(),
{
    reveal(Seq::filter);
    let q = content::is_fresh_video();
    let all = models::post_views(posts);
    if posts.len() > 0 {
        let rest = posts.drop_last();
        lemma_filter_of_views(rest, p);
        assert(all.drop_last() =~= models::post_views(rest));
        assert(q(posts.last()@) == p(posts.last()));
        if p(posts.last()) {
            assert(models::post_views(rest.filter(p).push(posts.last())) =~= models::post_views(
                rest.filter(p),
            ).push(posts.last()@));
        }
    } else {
        assert(all.filter(q) =~= models::post_views(posts.filter(p)));
    }
}

/// The images of posts are those of each of them, in the order of the posts.
pub proof fn law_images_of_posts(a: Seq<PostView>, b: Seq<PostView>, p: PostView)
    ensures
        content::all_images(a + b) == content::all_images(a) + content::all_images(b),
        content::all_images(seq![p]) == p.visual_image_urls,
        content::all_images(Seq::empty()) == Seq::<Seq<char>>::empty(),
    decreases b.len(),
{
    let none: Seq<PostView> = Seq::empty();
    assert(seq![p].drop_last() =~= none);
    assert(content::all_images(none) =~= Seq::<Seq<char>>::empty());
    assert(content::all_images(seq![p]) =~= p.visual_image_urls);
    if b.len() == 0 {
        assert(a + b =~= a);
        assert(content::all_images(a) + content::all_images(b) =~= content::all_images(a));
    } else {
        law_images_of_posts(a, b.drop_last(), p);
        assert((a + b).drop_last() =~= a + b.drop_last());
        assert((a + b).last() == b.last());
        assert(content::all_images(a + b) =~= content::all_images(a) + content::all_images(b));
    }
}

/// A video is found at the address that the scraper gave for it, else at that of
/// the post.
pub proof fn law_where_a_video_is_found(post: TiktokPost)
    ensures
        post.source_url is Some ==> content::video_source(post@) == post.source_url->0@,
        post.source_url is None ==> content::video_source(post@) == post.url@,
{
}

/// A transcript stands alone where the post has no caption, else both stand under
/// their names, the transcript first. The language is that of the transcript in
/// upper case.
pub proof fn law_transcript_and_caption(t: ContentView, caption: Option<Seq<char>>)
    ensures
        ({
            let both = content::spoken(t, caption);
            &&& both.language_code == models::language(t.language_code)
            &&& caption is None || text::trim(caption->0).len() == 0 ==> both.text == t.text
            &&& caption is Some && text::trim(caption->0).len() > 0 ==> both.text
                == "Transcript:\n"@ + t.text + "\n\nCaption:\n"@ + caption->0
        }),
{
}

/// A section says which post of how many it is for, its address, its views, and
/// whether it is pinned, and ends with what was read.
pub proof fn law_section_of_a_post(post: TiktokPost, index: nat, total: nat, t: Seq<char>)
    ensures
        content::section(index, total, post@, t) == "Post "@ + numbers::decimal(index + 1)
            + " of "@ + numbers::decimal(total) + "\nURL: "@ + post.url@ + "\nViews: "@
            + numbers::decimal(post.views as nat) + "\nPinned: "@ + (if post.is_pinned {
            "true"@
        } else {
            "false"@
        }) + "\n"@ + t,
{
}

/// A post that was read stands with what was read of it; one that was not with its
/// caption, if it has one; else it is left out.
pub proof fn law_section_of_a_post_that_was_not_read(
    posts: Seq<PostView>,
    read: Seq<Option<ContentView>>,
    i: int,
)
    requires
        0 <= i < posts.len(),
        read.len() == posts.len(),
    ensures
        ({
            let part = content::sections(posts, read)[i];
            let caption = posts[i].caption;
            let n = posts.len();
            &&& content::sections(posts, read).len() == posts.len()
            &&& read[i] is Some ==> part == Some(
                content::section(i as nat, n, posts[i], read[i]->0.text),
            )
            &&& read[i] is None && caption is Some && text::trim(caption->0).len() > 0 ==> part
                == Some(
                content::section(
                    i as nat,
                    n,
                    posts[i],
                    "Transcript unavailable.\n\nCaption:\n"@ + text::trim(caption->0),
                ),
            )
            &&& read[i] is None && (caption is None || text::trim(caption->0).len() == 0)
                ==> part is None
        }),
{
}

/// The content of posts has the language of the first one that was read and whose
/// language is known.
pub proof fn law_language_of_the_content(read: Seq<Option<ContentView>>, i: int)
    ensures
        0 <= i < read.len() && read[i] is Some && read[i]->0.language_code != "UNKNOWN"@ && (
        forall|j: int|
            0 <= j < i && (#[trigger] read[j]) is Some ==> read[j]->0.language_code
                == "UNKNOWN"@) ==> content::first_language(read) == read[i]->0.language_code,
        (forall|j: int|
            0 <= j < read.len() && (#[trigger] read[j]) is Some ==> read[j]->0.language_code
                == "UNKNOWN"@) ==> content::first_language(read) == "UNKNOWN"@,
    decreases read.len(),
{
    if read.len() > 0 {
        let rest = read.drop_last();
        law_language_of_the_content(rest, i);
        if forall|j: int|
            0 <= j < read.len() && (#[trigger] read[j]) is Some ==> read[j]->0.language_code
                == "UNKNOWN"@ {
            assert forall|j: int| 0 <= j < rest.len() && (#[trigger] rest[j]) is Some implies rest[j]->0.language_code
                == "UNKNOWN"@ by {
                assert(rest[j] == read[j]);
            }
            assert(read[read.len() - 1] == read.last());
        }
        if 0 <= i < read.len() && read[i] is Some && read[i]->0.language_code != "UNKNOWN"@ && (
        forall|j: int|
            0 <= j < i && (#[trigger] read[j]) is Some ==> read[j]->0.language_code
                == "UNKNOWN"@) {
            if i < rest.len() {
                assert(rest[i] == read[i]);
                assert forall|j: int| 0 <= j < i && (#[trigger] rest[j]) is Some implies rest[j]->0.language_code
                    == "UNKNOWN"@ by {
                    assert(rest[j] == read[j]);
                }
            } else {
                assert forall|j: int| 0 <= j < rest.len() && (#[trigger] rest[j])
                    is Some implies rest[j]->0.language_code == "UNKNOWN"@ by {
                    assert(rest[j] == read[j]);
                }
            }
        }
    }
}

/// The content of one post is its section, and each further section follows after a
/// line of dashes.
pub proof fn law_content_of_posts(posts: Seq<PostView>, read: Seq<Option<ContentView>>)
    requires
        posts.len() == read.len(),
    ensures
        posts.len() == 0 ==> content::content_of(posts, read).text == Seq::<char>::empty()
            && content::content_of(posts, read).language_code == "UNKNOWN"@,
        posts.len() > 0 ==> content::content_of(posts, read).text == search::join(
            crate::lists::present(content::sections(posts, read)),
            "\n\n---\n\n"@,
        ),
        posts.len() > 0 ==> content::content_of(posts, read).language_code == models::language(
            content::first_language(read),
        ),
{
}

/// The language that a classification found counts, where it found one.
pub proof fn law_language_of_the_classification(c: ContentView, found: Seq<char>)
    ensures
        content::in_language(c, found).text == c.text,
        found != "UNKNOWN"@ ==> content::in_language(c, found).language_code == found,
        found == "UNKNOWN"@ ==> content::in_language(c, found).language_code == c.language_code,
{
}

// ---------------------------------------------------------------------------
// Jobs
// ---------------------------------------------------------------------------
/// A run asks of jobs what filters with the same values ask.
pub proof fn law_run_asks_what_its_filters_say(run: QueueRunFilters, f: QueueClaimFilters)
    requires
        models::opt_text(f.language_code) == models::opt_text(run.language_code),
        models::opt_text(f.app_name) == models::opt_text(run.app_name),
        search::texts(f.app_names@) == search::texts(run.app_names@),
        search::texts(f.country_codes@) == search::texts(run.country_codes@),
        search::texts(f.handles@) == search::texts(run.handles@),
        f.whitelist_only == run.whitelist_only,
    ensures
        f@ == run.asks(),
{
}

/// What came of a crawl that is kept: the handle, the app that was found, and how
/// many jobs are new; the creator was not skipped.
pub proof fn law_result_of_a_crawl(r: CrawlResult, handle: Seq<char>, outcome: RecordOutcome)
    requires
        jobs::is_kept(r, handle, outcome),
    ensures
        r.handle@ == handle,
        !r.skipped_already_scraped,
        r.promoted_app_name is Some <==> outcome.promoted_app_name is Some,
        r.promoted_app_name is Some ==> r.promoted_app_name->0@ == outcome.promoted_app_name->0@,
        r.enqueued_following_count == outcome.enqueued_following_count,
{
}

/// A seed leads to the accounts that are noted for it, but for itself; an item that
/// is deeper leads nowhere.
pub proof fn law_where_an_item_leads(db: DatabaseView, depth: u8, handle: Seq<char>, h: Seq<char>)
    ensures
        depth > 0 ==> jobs::leads_to(db, depth, handle).len() == 0,
        depth == 0 ==> (jobs::leads_to(db, depth, handle).contains(h) <==> h != handle && exists|
            k: int,
        |
            0 <= k < db.follows.len() && (#[trigger] db.follows[k]).creator_handle == handle
                && handles::normalized_handle(db.follows[k].follows_handle) == Some(h)),
{
    if depth == 0 {
        let accounts = creator_lists::accounts_of(db.follows, handle);
        let list = handles::normalized_handles(accounts);
        let p = record::other_than(handle);
        let to = jobs::leads_to(db, depth, handle);
        handles::law_normalized_handles_members(accounts, h);
        crate::db::table::lemma_filter_members(list, p);
        if to.contains(h) {
            let i = choose|i: int| 0 <= i < to.len() && to[i] == h;
            assert(p(to[i]) && list.contains(to[i]));
            let j = choose|j: int|
                0 <= j < accounts.len() && handles::normalized_handle(#[trigger] accounts[j])
                    == Some(h);
            let a = accounts[j];
            known_list_laws::law_accounts_of_a_creator(db.follows, handle, a, 0, 0);
            assert(accounts.contains(a));
            let row = FollowView { creator_handle: handle, follows_handle: a };
            let k = choose|k: int| 0 <= k < db.follows.len() && db.follows[k] == row;
            assert(db.follows[k].creator_handle == handle);
        }
        if h != handle && exists|k: int|
            0 <= k < db.follows.len() && (#[trigger] db.follows[k]).creator_handle == handle
                && handles::normalized_handle(db.follows[k].follows_handle) == Some(h) {
            let k = choose|k: int|
                0 <= k < db.follows.len() && (#[trigger] db.follows[k]).creator_handle == handle
                    && handles::normalized_handle(db.follows[k].follows_handle) == Some(h);
            let a = db.follows[k].follows_handle;
            known_list_laws::law_accounts_of_a_creator(db.follows, handle, a, 0, 0);
            assert(db.follows.contains(db.follows[k]));
            assert(db.follows[k] == (FollowView { creator_handle: handle, follows_handle: a }));
            let j = choose|j: int| 0 <= j < accounts.len() && accounts[j] == a;
            assert(handles::normalized_handle(accounts[j]) == Some(h));
            assert(list.contains(h));
            let m = choose|m: int| 0 <= m < list.len() && list[m] == h;
            assert(p(list[m]));
            list.lemma_filter_contains(p, m);
        }
    }
}

/// Once an item was crawled it is done, and no other item that was there changed;
/// what is new are untried items, one deeper, that were found at it.
pub proof fn law_items_after_a_crawl(
    db: DatabaseView,
    run_id: i64,
    depth: u8,
    handle: Seq<char>,
    now: Seq<char>,
    k: int,
)
    requires
        depth < 255,
    ensures
        ({
            let all = jobs::expanded(db, run_id, depth, handle, now);
            &&& all.len() >= db.items.len()
            &&& depth > 0 ==> all.len() == db.items.len()
            &&& 0 <= k < db.items.len() && !(db.items[k].run_id == run_id && db.items[k].handle
                == handle) ==> all[k] == db.items[k]
            &&& 0 <= k < db.items.len() && db.items[k].run_id == run_id && db.items[k].handle
                == handle ==> all[k] == (ItemView {
                status: JobStatus::Done,
                scraped_at: Some(now),
                locked_at: None,
                last_error: None,
                ..db.items[k]
            })
            &&& db.items.len() <= k < all.len() ==> all[k] == (ItemView {
                run_id: run_id,
                handle: all[k].handle,
                depth: 1,
                discovered_from: Some(handle),
                found_at: now,
                status: JobStatus::Pending,
                attempts: 0,
                locked_at: None,
                scraped_at: None,
                last_error: None,
            }) && all[k].handle != handle && jobs::leads_to(db, depth, handle).contains(
                all[k].handle,
            )
        }),
{
    let accounts = jobs::leads_to(db, depth, handle);
    let deeper = frontier::with_deeper(
        db.items,
        run_id,
        (depth + 1) as u8,
        handle,
        accounts,
        now,
    );
    let all = jobs::expanded(db, run_id, depth, handle, now);
    frontier_laws::law_going_deeper(
        db.items,
        run_id,
        (depth + 1) as u8,
        handle,
        accounts,
        now,
        k,
        handle,
    );
    assert(all.len() == deeper.len());
    if 0 <= k < deeper.len() {
        frontier_laws::law_marking_an_item(deeper, run_id, handle, now, Seq::empty(), k);
        if k >= db.items.len() {
            law_where_an_item_leads(db, depth, handle, deeper[k].handle);
        }
    }
}

/// Every account that a crawled seed leads to is in the run then.
pub proof fn law_accounts_of_a_seed_are_in_the_run(
    db: DatabaseView,
    run_id: i64,
    handle: Seq<char>,
    now: Seq<char>,
    h: Seq<char>,
)
    requires
        jobs::leads_to(db, 0, handle).contains(h),
    ensures
        frontier_laws::in_run(jobs::expanded(db, run_id, 0, handle, now), run_id, h),
{
    let accounts = jobs::leads_to(db, 0, handle);
    let deeper = frontier::with_deeper(db.items, run_id, 1, handle, accounts, now);
    let all = jobs::expanded(db, run_id, 0, handle, now);
    frontier_laws::law_going_deeper(db.items, run_id, 1, handle, accounts, now, 0, h);
    let k = choose|k: int|
        0 <= k < deeper.len() && (#[trigger] deeper[k]).run_id == run_id && deeper[k].handle == h;
    frontier_laws::law_marking_an_item(deeper, run_id, handle, now, Seq::empty(), k);
    assert(all[k].run_id == run_id && all[k].handle == h);
}

/// Of the reply for a country the country is kept, or why there is none.
pub proof fn law_reply_for_a_country(reply: CountryReply)
    ensures
        match reply {
            CountryReply::Country(code) => jobs::replied_country(reply) == Some(code@)
                && jobs::replied_note(reply) is None,
            CountryReply::Nothing => jobs::replied_country(reply) is None && jobs::replied_note(
                reply,
            ) == Some("profile region was missing"@),
            CountryReply::Error(error) => jobs::replied_country(reply) is None
                && jobs::replied_note(reply) == Some(error@),
        },
{
}

// ---------------------------------------------------------------------------
// Runs
// ---------------------------------------------------------------------------
/// Each creator is counted once in all, and once under what came of it.
pub proof fn law_creators_are_counted(s: RunSummary, outcome: CrawlOutcome)
    requires
        s.wf(),
        s.processed < usize::MAX,
    ensures
        ({
            let t = run::counted(s, outcome);
            &&& t.processed == s.processed + 1
            &&& t.succeeded - s.succeeded == if outcome is Succeeded {
                1int
            } else {
                0
            }
            &&& t.skipped - s.skipped == if outcome is Skipped {
                1int
            } else {
                0
            }
            &&& t.failed - s.failed == if outcome is Failed {
                1int
            } else {
                0
            }
        }),
{
}

/// The processed creators are those that succeeded, failed or were skipped.
pub proof fn law_summaries_add_up(s: RunSummary)
    ensures
        s.wf() <==> s.processed == s.succeeded + s.failed + s.skipped,
{
}

/// A batch has as many jobs as are worked on at once, or as many as the limit
/// leaves where those are fewer.
pub proof fn law_size_of_a_batch(limit: usize, at_once: usize, processed: usize)
    requires
        processed <= limit,
    ensures
        run::batch_size(None, at_once, processed) == at_once,
        run::batch_size(Some(limit), at_once, processed) <= at_once,
        processed + run::batch_size(Some(limit), at_once, processed) <= limit,
        run::batch_size(Some(limit), at_once, processed) == at_once || processed
            + run::batch_size(Some(limit), at_once, processed) == limit,
{
}

/// A run without a limit is never full, and one with a limit once it has processed
/// as many creators.
pub proof fn law_run_is_full(r: Run, limit: usize)
    ensures
        r.limit is None ==> !r.is_full(),
        r.limit == Some(limit) ==> (r.is_full() <==> r.summary.processed >= limit),
{
}

/// A run works on something at once, and takes no more jobs than it may.
pub proof fn law_run_keeps_to_its_bounds(r: Run, limit: usize)
    requires
        r.wf(),
    ensures
        r.concurrency >= 1,
        r.summary.processed == r.summary.succeeded + r.summary.failed + r.summary.skipped,
        r.limit == Some(limit) ==> r.summary.processed <= limit,
        r.phase matches Phase::Claiming { size, claimed } ==> claimed <= size && 1 <= size
            <= r.concurrency && (r.limit == Some(limit) ==> r.summary.processed + size <= limit),
        r.phase matches Phase::Crawling { left } ==> 1 <= left <= r.concurrency && (r.limit
            == Some(limit) ==> r.summary.processed + left <= limit),
{
}

/// A number is moved into a range, and stays where it is within.
pub proof fn law_numbers_are_moved_into_a_range(n: usize, low: usize, high: usize)
    requires
        low <= high,
    ensures
        low <= run::clamped(n, low, high) <= high,
        low <= n <= high ==> run::clamped(n, low, high) == n,
        n < low ==> run::clamped(n, low, high) == low,
        n > high ==> run::clamped(n, low, high) == high,
{
}

} // verus!
