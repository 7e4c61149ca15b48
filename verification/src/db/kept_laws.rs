//! What stands in each column after a creator was kept.

use vstd::prelude::*;
use crate::db::apps;
use crate::db::filters;
use crate::db::filters::DbError;
use crate::db::outcomes;
use crate::db::queue;
use crate::db::record;
use crate::db::record::{RecordCreatorOptions, RecordOutcome};
use crate::db::record_laws;
use crate::db::rows;
use crate::db::rows::{AppPolicy, ContactStatus, Database, JobStatus};
use crate::db::table;
use crate::handles;
use crate::json;
use crate::json::JsonView;
use crate::json_text;
use crate::models;
use crate::models::CrawledCreator;
use crate::moment;
use crate::text;

verus! {

/// The row is the one of the creator that was kept.
pub open spec fn is_row_of(creator: CrawledCreator, handle: Seq<char>) -> bool {
    handles::normalized_handle(creator.snapshot.handle@) == Some(handle)
}

/// The count, or the greatest that a column holds.
pub open spec fn in_column(n: Option<u64>, column: Option<i64>) -> bool {
    match n {
        Some(n) => column matches Some(c) && (n <= 0x7fff_ffff_ffff_ffff ==> c == n) && (n
            > 0x7fff_ffff_ffff_ffff ==> c == 0x7fff_ffff_ffff_ffff),
        None => column is None,
    }
}

/// The text that may be missing stands in a document.
pub open spec fn text_or_null(t: Option<String>) -> JsonView {
    match t {
        Some(t) => JsonView::Text(t@),
        None => JsonView::Null,
    }
}

/// The name of the app that a creator was found to promote: the known name of the
/// classification, else its other name, without white space around it and where
/// something is left of it.
pub open spec fn named_app(creator: CrawledCreator) -> Option<Seq<char>> {
    let given = match creator.classification.existing_app_name {
        Some(t) => Some(t@),
        None => match creator.classification.app_name {
            Some(t) => Some(t@),
            None => None,
        },
    };
    match given {
        Some(t) => if text::trim(t).len() == 0 {
            None
        } else {
            Some(text::trim(t))
        },
        None => None,
    }
}

// ---------------------------------------------------------------------------
// The creator
// ---------------------------------------------------------------------------
/// The row of a creator that was kept holds each crawled value in its own column:
/// the profile's name, bio and counts, the average and the median of the views,
/// the post that was seen most, the text and the language of the latest posts, the
/// app, the name and the address of the classification, and the time of the crawl.
pub proof fn law_crawled_values_stand_in_their_columns(
    before: Database,
    after: Database,
    creator: CrawledCreator,
    options: RecordCreatorOptions,
    now: Seq<char>,
    r: Result<RecordOutcome, DbError>,
    i: int,
)
    requires
        record::record_result(before@, after@, creator@, options, now, r),
        r is Ok,
        0 <= i < after.creators@.len(),
        is_row_of(creator, after.creators@[i].handle@),
    ensures
        ({
            let row = after.creators@[i];
            let c = creator.classification;
            &&& row.avg_views == creator.avg_views
            &&& row.median_views == creator.median_views
            &&& models::opt_text(row.display_name) == models::opt_text(
                creator.snapshot.display_name,
            )
            &&& models::opt_text(row.contact_name) == models::opt_text(c.creator_name)
            &&& models::opt_text(row.email) == models::opt_text(c.creator_email)
            &&& row.bio@ == creator.snapshot.bio@
            &&& in_column(creator.snapshot.follower_count, row.follower_count)
            &&& in_column(creator.snapshot.following_count, row.following_count)
            &&& models::opt_text(row.most_viral_video_url) == models::opt_text(
                creator.stats.most_viral_video_url,
            )
            &&& in_column(creator.stats.most_viral_video_views, row.most_viral_video_views)
            &&& row.latest_content_text@ == creator.latest_content.text@
            &&& row.language_code@ == creator.latest_content.language_code@
            &&& models::opt_text(row.promoted_app_name) == named_app(creator)
            &&& row.scraped_at@ == moment::rfc3339_written(creator.scraped_at)
            &&& models::opt_text(row.country_code) == match filters::market_of_language(
                creator.latest_content.language_code@,
            ) {
                Some(market) => Some(market),
                None => models::opt_text(creator.snapshot.country_code),
            }
        }),
{
    let handle = handles::normalized_handle(creator@.snapshot.handle)->0;
    let new = record::crawled(creator@, handle);
    let row = after.creators@[i];
    assert(after@.creators[i] == row@);
    lemma_row_is_new(before, after, creator, options, now, r, i);
}

proof fn lemma_row_is_new(
    before: Database,
    after: Database,
    creator: CrawledCreator,
    options: RecordCreatorOptions,
    now: Seq<char>,
    r: Result<RecordOutcome, DbError>,
    i: int,
)
    requires
        record::record_result(before@, after@, creator@, options, now, r),
        r is Ok,
        0 <= i < after.creators@.len(),
        is_row_of(creator, after.creators@[i].handle@),
    ensures
        ({
            let new = record::crawled(creator@, after.creators@[i].handle@);
            let known = rows::has_creator(before@.creators, after.creators@[i].handle@);
            &&& known ==> i < before.creators@.len() && after@.creators[i] == record::recrawled(
                new,
            )(before@.creators[i]) && before.creators@[i].handle@ == after.creators@[i].handle@
            &&& !known ==> after@.creators[i] == new
        }),
{
    let handle = after.creators@[i].handle@;
    let new = record::crawled(creator@, handle);
    assert(after@.creators[i] == after.creators@[i]@);
    assert(after@.creators == record::with_creator(before@.creators, new));
    if rows::has_creator(before@.creators, handle) {
        assert(after@.creators[i] == record::recrawled(new)(before@.creators[i]));
        assert(before@.creators[i] == before.creators@[i]@);
    } else if i < before.creators@.len() {
        assert(before@.creators[i] == before.creators@[i]@);
        assert(rows::creator_is(handle)(before@.creators[i]));
    }
}

/// The document that is kept of a creator holds the reply of the scraper and each
/// value of the classification under its own name.
pub proof fn law_kept_document_holds_the_crawl(
    before: Database,
    after: Database,
    creator: CrawledCreator,
    options: RecordCreatorOptions,
    now: Seq<char>,
    r: Result<RecordOutcome, DbError>,
    i: int,
)
    requires
        record::record_result(before@, after@, creator@, options, now, r),
        r is Ok,
        0 <= i < after.creators@.len(),
        is_row_of(creator, after.creators@[i].handle@),
    ensures
        ({
            let c = creator.classification;
            after.creators@[i].raw_json@ == json_text::json_text(
                JsonView::Object(
                    seq![
                        ("creator"@, creator.snapshot.raw@),
                        (
                            "classification"@,
                            JsonView::Object(
                                seq![
                                    ("promotes_app"@, JsonView::Bool(c.promotes_app)),
                                    ("app_name"@, text_or_null(c.app_name)),
                                    ("is_existing_app"@, JsonView::Bool(c.is_existing_app)),
                                    ("existing_app_name"@, text_or_null(c.existing_app_name)),
                                    ("is_new_app"@, JsonView::Bool(c.is_new_app)),
                                    (
                                        "supporting_post_count"@,
                                        json::number(c.supporting_post_count as nat),
                                    ),
                                    ("language_code"@, JsonView::Text(c.language_code@)),
                                    ("creator_name"@, text_or_null(c.creator_name)),
                                    ("creator_email"@, text_or_null(c.creator_email)),
                                    ("confidence"@, creator.confidence_json@),
                                    ("evidence"@, JsonView::Text(c.evidence@)),
                                ],
                            ),
                        ),
                    ],
                ),
            )
        }),
{
    lemma_row_is_new(before, after, creator, options, now, r, i);
    assert(after@.creators[i] == after.creators@[i]@);
}

/// A creator that was known keeps the state of the contact and the notes on the
/// country; one that was not has not been contacted.
pub proof fn law_contact_outlives_the_crawl(
    before: Database,
    after: Database,
    creator: CrawledCreator,
    options: RecordCreatorOptions,
    now: Seq<char>,
    r: Result<RecordOutcome, DbError>,
    i: int,
)
    requires
        record::record_result(before@, after@, creator@, options, now, r),
        r is Ok,
        0 <= i < after.creators@.len(),
        is_row_of(creator, after.creators@[i].handle@),
    ensures
        i < before.creators@.len() ==> {
            let row = after.creators@[i];
            let old_row = before.creators@[i];
            &&& old_row.handle@ == row.handle@
            &&& row.contact_status == old_row.contact_status
            &&& models::opt_text(row.contact_priority_at) == models::opt_text(
                old_row.contact_priority_at,
            )
            &&& models::opt_text(row.contacted_at) == models::opt_text(old_row.contacted_at)
            &&& models::opt_text(row.country_checked_at) == models::opt_text(
                old_row.country_checked_at,
            )
            &&& models::opt_text(row.country_error) == models::opt_text(old_row.country_error)
        },
        i >= before.creators@.len() ==> {
            let row = after.creators@[i];
            &&& row.contact_status == ContactStatus::Unselected
            &&& row.contact_priority_at is None
            &&& row.contacted_at is None
            &&& row.country_checked_at is None
            &&& row.country_error is None
        },
{
    lemma_row_is_new(before, after, creator, options, now, r, i);
    assert(after@.creators[i] == after.creators@[i]@);
    if i < before.creators@.len() {
        assert(before@.creators[i] == before.creators@[i]@);
        let handle = after.creators@[i].handle@;
        if !rows::has_creator(before@.creators, handle) {
            assert(after@.creators[i] == before@.creators[i]);
            assert(rows::creator_is(handle)(before@.creators[i]));
        }
    }
}

/// The creator that was kept has a row, and the rows of all other creators stay
/// where and as they are.
pub proof fn law_only_the_creator_changes(
    before: Database,
    after: Database,
    creator: CrawledCreator,
    options: RecordCreatorOptions,
    now: Seq<char>,
    r: Result<RecordOutcome, DbError>,
    k: int,
) -> (i: int)
    requires
        record::record_result(before@, after@, creator@, options, now, r),
        r is Ok,
    ensures
        0 <= i < after.creators@.len(),
        is_row_of(creator, after.creators@[i].handle@),
        0 <= k < before.creators@.len() && !is_row_of(creator, before.creators@[k].handle@) ==> k
            < after.creators@.len() && after.creators@[k]@ == before.creators@[k]@,
        before.creators@.len() <= after.creators@.len() <= before.creators@.len() + 1,
        after@.bucket == before@.bucket,
        after@.runs == before@.runs,
        after@.items == before@.items,
{
    let handle = handles::normalized_handle(creator@.snapshot.handle)->0;
    let new = record::crawled(creator@, handle);
    let known = rows::has_creator(before@.creators, handle);
    assert(after@.creators == record::with_creator(before@.creators, new));
    if 0 <= k < before.creators@.len() {
        assert(before@.creators[k] == before.creators@[k]@);
        assert(after@.creators[k] == after.creators@[k]@);
        if known {
            assert(after@.creators[k] == record::recrawled(new)(before@.creators[k]));
        }
    }
    let i = if known {
        choose|i: int|
            0 <= i < before@.creators.len() && rows::creator_is(handle)(
                #[trigger] before@.creators[i],
            )
    } else {
        before@.creators.len() as int
    };
    assert(after@.creators[i] == after.creators@[i]@);
    if known {
        assert(after@.creators[i] == record::recrawled(new)(before@.creators[i]));
    }
    i
}

// ---------------------------------------------------------------------------
// The posts
// ---------------------------------------------------------------------------
/// The posts of the crawl stand at the end of the table, in their order, each with
/// its values in their own columns; the first of them counts as the latest, and
/// the one that was seen most is marked. No other row is one of the creator, and
/// each of them was there before.
pub proof fn law_posts_stand_in_their_columns(
    before: Database,
    after: Database,
    creator: CrawledCreator,
    options: RecordCreatorOptions,
    now: Seq<char>,
    r: Result<RecordOutcome, DbError>,
    j: int,
)
    requires
        record::record_result(before@, after@, creator@, options, now, r),
        r is Ok,
        0 <= j < after.videos@.len(),
    ensures
        creator.snapshot.videos@.len() <= after.videos@.len(),
        ({
            let n = after.videos@.len() - creator.snapshot.videos@.len();
            let row = after.videos@[j];
            let post = creator.snapshot.videos@[j - n];
            &&& j >= n ==> is_row_of(creator, row.creator_handle@) && row.tiktok_url@ == post.url@
                && models::opt_text(row.post_id) == models::opt_text(post.id) && row.kind == post.kind
                && in_column(Some(post.views), Some(row.views)) && models::opt_text(row.caption)
                == models::opt_text(post.caption) && models::opt_text(row.source_url)
                == models::opt_text(post.source_url) && row.is_pinned == post.is_pinned
                && row.raw_json@ == json_text::json_text(post.raw@)
            &&& j >= n && post.published_at is Some ==> models::opt_text(row.published_at) == Some(
                moment::rfc3339_written(post.published_at->0),
            )
            &&& j >= n && post.published_at is None ==> row.published_at is None
            &&& j >= n ==> (row.is_latest <==> post.url@ == creator.snapshot.videos@[0].url@)
            &&& j >= n ==> (row.is_most_viral <==> models::opt_text(
                creator.stats.most_viral_video_url,
            ) == Some(post.url@))
            &&& j < n ==> !is_row_of(creator, row.creator_handle@) && before@.videos.contains(row@)
        }),
{
    let handle = handles::normalized_handle(creator@.snapshot.handle)->0;
    let posts = creator@.snapshot.videos;
    let p = record::video_of(handle);
    let kept = table::without(before@.videos, p);
    let new = record::kept_videos(handle, posts, creator@.most_viral_video_url);
    assert(after@.videos == kept + new);
    assert(after@.videos[j] == after.videos@[j]@);
    table::lemma_filter_members(before@.videos, table::opposite(p));
    let n = after.videos@.len() - posts.len();
    assert(kept.len() == n);
    if j >= n {
        assert(after@.videos[j] == new[j - n]);
        assert(posts[j - n] == creator.snapshot.videos@[j - n]@);
        assert(posts[0] == creator.snapshot.videos@[0]@);
    } else {
        assert(after@.videos[j] == kept[j]);
        assert(table::opposite(p)(kept[j]));
    }
}

/// The posts of other creators stay.
pub proof fn law_other_posts_stay(
    before: Database,
    after: Database,
    creator: CrawledCreator,
    options: RecordCreatorOptions,
    now: Seq<char>,
    r: Result<RecordOutcome, DbError>,
    j: int,
)
    requires
        record::record_result(before@, after@, creator@, options, now, r),
        r is Ok,
        0 <= j < before.videos@.len(),
        !is_row_of(creator, before.videos@[j].creator_handle@),
    ensures
        after@.videos.contains(before.videos@[j]@),
{
    let handle = handles::normalized_handle(creator@.snapshot.handle)->0;
    let p = record::video_of(handle);
    let kept = table::without(before@.videos, p);
    assert(before@.videos[j] == before.videos@[j]@);
    assert(table::opposite(p)(before@.videos[j]));
    before@.videos.lemma_filter_contains(table::opposite(p), j);
    let k = choose|k: int| 0 <= k < kept.len() && kept[k] == before@.videos[j];
    assert(after@.videos[k] == kept[k]);
}

// ---------------------------------------------------------------------------
// The followed accounts
// ---------------------------------------------------------------------------
/// The account is one that the crawl says the creator follows: one of the given
/// texts names it, and it is not the creator.
pub open spec fn follows_account(creator: CrawledCreator, h: Seq<char>) -> bool {
    &&& !is_row_of(creator, h)
    &&& exists|i: int|
        0 <= i < creator.snapshot.following@.len() && handles::normalized_handle(
            (#[trigger] creator.snapshot.following@[i])@,
        ) == Some(h)
}

proof fn lemma_follows_account(creator: CrawledCreator, handle: Seq<char>, h: Seq<char>)
    requires
        is_row_of(creator, handle),
    ensures
        record::followed(handle, creator@.snapshot.following).contains(h) <==> follows_account(
            creator,
            h,
        ),
{
    let given = creator@.snapshot.following;
    let list = handles::normalized_handles(given);
    let p = record::other_than(handle);
    let accounts = record::followed(handle, given);
    handles::law_normalized_handles_members(given, h);
    table::lemma_filter_members(list, p);
    if accounts.contains(h) {
        let k = choose|k: int| 0 <= k < accounts.len() && accounts[k] == h;
        assert(list.contains(list.filter(p)[k]));
        let i = choose|i: int|
            0 <= i < given.len() && handles::normalized_handle(#[trigger] given[i]) == Some(h);
        assert(given[i] == creator.snapshot.following@[i]@);
    }
    if follows_account(creator, h) {
        let i = choose|i: int|
            0 <= i < creator.snapshot.following@.len() && handles::normalized_handle(
                (#[trigger] creator.snapshot.following@[i])@,
            ) == Some(h);
        assert(given[i] == creator.snapshot.following@[i]@);
        assert(list.contains(h));
        let m = choose|m: int| 0 <= m < list.len() && list[m] == h;
        list.lemma_filter_contains(p, m);
    }
}

/// An account is noted as followed by the creator exactly if the crawl says so;
/// what is noted of other creators stays.
pub proof fn law_followed_accounts_are_noted(
    before: Database,
    after: Database,
    creator: CrawledCreator,
    options: RecordCreatorOptions,
    now: Seq<char>,
    r: Result<RecordOutcome, DbError>,
    a: Seq<char>,
    h: Seq<char>,
)
    requires
        record::record_result(before@, after@, creator@, options, now, r),
        r is Ok,
    ensures
        ({
            let noted = exists|i: int|
                0 <= i < after.follows@.len() && (#[trigger] after.follows@[i]).creator_handle@ == a
                    && after.follows@[i].follows_handle@ == h;
            let was_noted = exists|i: int|
                0 <= i < before.follows@.len() && (#[trigger] before.follows@[i]).creator_handle@
                    == a && before.follows@[i].follows_handle@ == h;
            &&& is_row_of(creator, a) ==> (noted <==> follows_account(creator, h))
            &&& !is_row_of(creator, a) ==> (noted <==> was_noted)
        }),
{
    let handle = handles::normalized_handle(creator@.snapshot.handle)->0;
    let accounts = record::followed(handle, creator@.snapshot.following);
    let p = record::follow_of(handle);
    let kept = table::without(before@.follows, p);
    let new = record::kept_follows(handle, accounts);
    assert(after@.follows == kept + new);
    table::lemma_filter_members(before@.follows, table::opposite(p));
    lemma_follows_account(creator, handle, h);
    let noted = exists|i: int|
        0 <= i < after.follows@.len() && (#[trigger] after.follows@[i]).creator_handle@ == a
            && after.follows@[i].follows_handle@ == h;
    let was_noted = exists|i: int|
        0 <= i < before.follows@.len() && (#[trigger] before.follows@[i]).creator_handle@ == a
            && before.follows@[i].follows_handle@ == h;
    if noted {
        let i = choose|i: int|
            0 <= i < after.follows@.len() && (#[trigger] after.follows@[i]).creator_handle@ == a
                && after.follows@[i].follows_handle@ == h;
        assert(after@.follows[i] == after.follows@[i]@);
        if i < kept.len() {
            assert(after@.follows[i] == kept[i]);
            assert(table::opposite(p)(kept[i]));
            assert(before@.follows.contains(kept[i]));
            let k = choose|k: int| 0 <= k < before@.follows.len() && before@.follows[k] == kept[i];
            assert(before@.follows[k] == before.follows@[k]@);
        } else {
            assert(after@.follows[i] == new[i - kept.len()]);
            assert(accounts[i - kept.len()] == h);
        }
    }
    if a == handle && follows_account(creator, h) {
        let k = choose|k: int| 0 <= k < accounts.len() && accounts[k] == h;
        assert(after@.follows[kept.len() + k] == new[k]);
        assert(after@.follows[kept.len() + k] == after.follows@[kept.len() + k]@);
    }
    if a != handle && was_noted {
        let k = choose|k: int|
            0 <= k < before.follows@.len() && (#[trigger] before.follows@[k]).creator_handle@ == a
                && before.follows@[k].follows_handle@ == h;
        assert(before@.follows[k] == before.follows@[k]@);
        assert(table::opposite(p)(before@.follows[k]));
        before@.follows.lemma_filter_contains(table::opposite(p), k);
        let m = choose|m: int| 0 <= m < kept.len() && kept[m] == before@.follows[k];
        assert(after@.follows[m] == kept[m]);
        assert(after@.follows[m] == after.follows@[m]@);
    }
}

// ---------------------------------------------------------------------------
// The app
// ---------------------------------------------------------------------------
/// The app of the creator is in the table of apps, seen last at the time of the
/// crawl; one that was there keeps its policy and when it was first seen, and one
/// that was not is neutral. The other apps stay as they are.
pub proof fn law_app_of_the_creator_is_seen(
    before: Database,
    after: Database,
    creator: CrawledCreator,
    options: RecordCreatorOptions,
    now: Seq<char>,
    r: Result<RecordOutcome, DbError>,
    k: int,
)
    requires
        record::record_result(before@, after@, creator@, options, now, r),
        r is Ok,
        0 <= k < after.apps@.len(),
    ensures
        before.apps@.len() <= after.apps@.len(),
        ({
            let app = after.apps@[k];
            let mine = named_app(creator) == Some(app.name@);
            let at = moment::rfc3339_written(creator.scraped_at);
            &&& mine ==> app.last_seen_at@ == at
            &&& k < before.apps@.len() ==> app.name@ == before.apps@[k].name@
                && app.first_seen_at@ == before.apps@[k].first_seen_at@ && app.policy
                == before.apps@[k].policy
            &&& k < before.apps@.len() && !mine ==> app.last_seen_at@
                == before.apps@[k].last_seen_at@
            &&& k >= before.apps@.len() ==> mine && app.first_seen_at@ == at && app.policy
                == AppPolicy::Neutral
        }),
        named_app(creator) is Some ==> exists|m: int|
            0 <= m < after.apps@.len() && Some((#[trigger] after.apps@[m]).name@) == named_app(
                creator,
            ),
        match r {
            Ok(outcome) => models::opt_text(outcome.promoted_app_name) == named_app(creator),
            Err(_) => false,
        },
{
    let handle = handles::normalized_handle(creator@.snapshot.handle)->0;
    let at = moment::rfc3339_written(creator.scraped_at);
    assert(models::app_candidate(creator@.classification) == named_app(creator));
    assert(after@.apps[k] == after.apps@[k]@);
    if k < before.apps@.len() {
        assert(before@.apps[k] == before.apps@[k]@);
    }
    if let Some(name) = named_app(creator) {
        assert(after@.apps == apps::with_app_seen(before@.apps, name, at));
        assert(after@.apps.len() == after.apps@.len());
        assert(before@.apps.len() == before.apps@.len());
        if rows::has_app(before@.apps, name) {
            let m = choose|m: int|
                0 <= m < before@.apps.len() && rows::app_is(name)(#[trigger] before@.apps[m]);
            assert(after@.apps[m] == apps::seen(name, at)(before@.apps[m]));
            assert(after@.apps[m] == after.apps@[m]@);
            assert(after@.apps[k] == apps::seen(name, at)(before@.apps[k]));
        } else {
            let m = before@.apps.len() as int;
            assert(after@.apps.len() == m + 1);
            assert(after@.apps[m] == after.apps@[m]@);
            assert(after@.apps[m].name == name);
            if k < before.apps@.len() && after.apps@[k].name@ == name {
                assert(rows::app_is(name)(before@.apps[k]));
            }
        }
    }
}

// ---------------------------------------------------------------------------
// The jobs
// ---------------------------------------------------------------------------
/// Where a creator is found to promote an app with a name that is not on the black
/// list, and following is asked for, every account that the creator follows has a
/// row among the creators or a job, and the outcome counts the jobs that are new.
pub proof fn law_crawl_goes_on_to_followed_accounts(
    before: Database,
    after: Database,
    creator: CrawledCreator,
    options: RecordCreatorOptions,
    now: Seq<char>,
    r: Result<RecordOutcome, DbError>,
    h: Seq<char>,
)
    requires
        record::record_result(before@, after@, creator@, options, now, r),
        r is Ok,
        options.enqueue_following,
        creator.classification.promotes_app,
        named_app(creator) is Some,
        forall|k: int|
            0 <= k < before.apps@.len() && Some((#[trigger] before.apps@[k]).name@) == named_app(
                creator,
            ) ==> before.apps@[k].policy != AppPolicy::Blacklist,
    ensures
        after.queue@.len() >= before.queue@.len(),
        r->Ok_0.enqueued_following_count == after.queue@.len() - before.queue@.len(),
        follows_account(creator, h) ==> {
            ||| exists|i: int|
                0 <= i < after.creators@.len() && (#[trigger] after.creators@[i]).handle@ == h
            ||| exists|i: int|
                0 <= i < after.queue@.len() && (#[trigger] after.queue@[i]).handle@ == h
        },
{
    let handle = handles::normalized_handle(creator@.snapshot.handle)->0;
    let name = named_app(creator)->0;
    let p = rows::app_is(name);
    assert(models::app_candidate(creator@.classification) == Some(name));
    table::lemma_no_first(before@.apps, p);
    if table::some_row(before@.apps, p) {
        let k = choose|k: int| 0 <= k < before@.apps.len() && p(#[trigger] before@.apps[k]);
        table::lemma_some_first(before@.apps, p, k);
        let m = choose|m: int| table::is_first(before@.apps, p, m);
        table::lemma_first(before@.apps, p, m);
        assert(before@.apps[m] == before.apps@[m]@);
    }
    assert(record::spreads(before@, creator@, options));
    record_laws::law_followed_accounts_are_queued(before@, creator@, handle, options, now);
    lemma_follows_account(creator, handle, h);
    if follows_account(creator, h) {
        let accounts = record::followed(handle, creator@.snapshot.following);
        assert(accounts.contains(h));
        if rows::has_creator(after@.creators, h) {
            let i = choose|i: int|
                0 <= i < after@.creators.len() && rows::creator_is(h)(#[trigger] after@.creators[i]);
            assert(after@.creators[i] == after.creators@[i]@);
        } else {
            let i = choose|i: int|
                0 <= i < after@.queue.len() && rows::job_is(h)(#[trigger] after@.queue[i]);
            assert(after@.queue[i] == after.queue@[i]@);
        }
    }
}

/// A job that keeping a creator adds is for an account that the creator follows
/// and that has neither a row nor a job; it waits untried, says that it was found
/// at the creator and when, and expects the creator's app. Jobs are added only
/// where the creator promotes an app and following is asked for.
pub proof fn law_added_jobs_say_where_they_come_from(
    before: Database,
    after: Database,
    creator: CrawledCreator,
    options: RecordCreatorOptions,
    now: Seq<char>,
    r: Result<RecordOutcome, DbError>,
    i: int,
)
    requires
        record::record_result(before@, after@, creator@, options, now, r),
        r is Ok,
        before.queue@.len() <= i < after.queue@.len(),
    ensures
        options.enqueue_following,
        creator.classification.promotes_app,
        named_app(creator) is Some,
        ({
            let job = after.queue@[i];
            &&& follows_account(creator, job.handle@)
            &&& job.status == JobStatus::Pending
            &&& job.attempts == 0
            &&& !job.manual_priority
            &&& job.discovered_from is Some
            &&& is_row_of(creator, job.discovered_from->0@)
            &&& models::opt_text(job.expected_app_name) == named_app(creator)
            &&& job.found_at@ == now
            &&& job.locked_at is None
            &&& job.scraped_at is None
            &&& job.last_error is None
            &&& forall|k: int|
                0 <= k < after.creators@.len() ==> (#[trigger] after.creators@[k]).handle@
                    != job.handle@
            &&& forall|k: int|
                0 <= k < before.queue@.len() ==> (#[trigger] before.queue@[k]).handle@
                    != job.handle@
        }),
{
    let handle = handles::normalized_handle(creator@.snapshot.handle)->0;
    let job = after.queue@[i];
    assert(after@.queue[i] == job@);
    if !record::spreads(before@, creator@, options) {
        record_laws::law_not_spreading_adds_no_jobs(
            before@,
            creator@,
            handle,
            options,
            now,
            job.handle@,
        );
    }
    record_laws::law_followed_accounts_are_queued(before@, creator@, handle, options, now);
    let accounts = record::followed(handle, creator@.snapshot.following);
    lemma_follows_account(creator, handle, job.handle@);
    assert(accounts.contains(after@.queue[i].handle));
    assert forall|k: int| 0 <= k < after.creators@.len() implies (
    #[trigger] after.creators@[k]).handle@ != job.handle@ by {
        assert(after@.creators[k] == after.creators@[k]@);
        if after.creators@[k].handle@ == job.handle@ {
            assert(rows::creator_is(job.handle@)(after@.creators[k]));
        }
    }
    assert forall|k: int| 0 <= k < before.queue@.len() implies (#[trigger] before.queue@[k]).handle@
        != job.handle@ by {
        assert(before@.queue[k] == before.queue@[k]@);
        if before.queue@[k].handle@ == job.handle@ {
            assert(rows::job_is(job.handle@)(before@.queue[k]));
        }
    }
}

/// Where the creator has an app, or dropping jobs is not asked for, no job is
/// lost: it is done if it is the creator's own, and otherwise as it was.
pub proof fn law_jobs_outlive_a_creator_with_an_app(
    before: Database,
    after: Database,
    creator: CrawledCreator,
    options: RecordCreatorOptions,
    now: Seq<char>,
    r: Result<RecordOutcome, DbError>,
    i: int,
)
    requires
        record::record_result(before@, after@, creator@, options, now, r),
        r is Ok,
        0 <= i < before.queue@.len(),
        named_app(creator) is Some || !options.prune_no_app_children,
    ensures
        i < after.queue@.len(),
        ({
            let job = after.queue@[i];
            let old_job = before.queue@[i];
            &&& job.handle@ == old_job.handle@
            &&& job.attempts == old_job.attempts
            &&& !is_row_of(creator, job.handle@) ==> job@ == old_job@
            &&& is_row_of(creator, job.handle@) ==> job.status == JobStatus::Done
                && models::opt_text(job.scraped_at) == Some(
                moment::rfc3339_written(creator.scraped_at),
            ) && job.locked_at is None && job.last_error is None
        }),
{
    let handle = handles::normalized_handle(creator@.snapshot.handle)->0;
    let change = outcomes::finished(handle, moment::rfc3339_written(creator.scraped_at));
    let mid = record::jobs_after(before@, after@.creators, creator@, handle, options, now);
    assert(after@.queue == mid.map_values(change));
    assert(before@.queue[i] == before.queue@[i]@);
    if record::spreads(before@, creator@, options) {
        let accounts = record::followed(handle, creator@.snapshot.following);
        record_laws::lemma_spread(
            after@.creators,
            before@.queue,
            accounts,
            handle,
            models::app_candidate(creator@.classification),
            now,
        );
        assert(mid.take(before@.queue.len() as int)[i] == before@.queue[i]);
    }
    assert(mid[i] == before@.queue[i]);
    assert(after@.queue[i] == change(mid[i]));
    assert(after@.queue[i] == after.queue@[i]@);
}

/// Where the creator has no app and dropping jobs is asked for, exactly those jobs
/// are lost that were found at the creator and that wait or have failed.
pub proof fn law_jobs_of_a_creator_without_app_are_lost(
    before: Database,
    after: Database,
    creator: CrawledCreator,
    options: RecordCreatorOptions,
    now: Seq<char>,
    r: Result<RecordOutcome, DbError>,
    i: int,
)
    requires
        record::record_result(before@, after@, creator@, options, now, r),
        r is Ok,
        before@.wf(),
        named_app(creator) is None,
        options.prune_no_app_children,
        0 <= i < before.queue@.len(),
    ensures
        ({
            let job = before.queue@[i];
            let lost = job.discovered_from is Some && is_row_of(creator, job.discovered_from->0@) && (
            job.status == JobStatus::Pending || job.status == JobStatus::Retry || job.status
                == JobStatus::Failed);
            let there = exists|k: int|
                0 <= k < after.queue@.len() && (#[trigger] after.queue@[k]).handle@ == job.handle@;
            there <==> !lost
        }),
{
    let handle = handles::normalized_handle(creator@.snapshot.handle)->0;
    let change = outcomes::finished(handle, moment::rfc3339_written(creator.scraped_at));
    let p = outcomes::prunable_from(handle);
    let q = table::opposite(p);
    let mid = before@.queue.filter(q);
    let job = before.queue@[i];
    assert(before@.queue[i] == job@);
    assert(after@.queue == mid.map_values(change));
    let there = exists|k: int|
        0 <= k < after.queue@.len() && (#[trigger] after.queue@[k]).handle@ == job.handle@;
    let lost = job.discovered_from is Some && is_row_of(creator, job.discovered_from->0@) && (
    job.status == JobStatus::Pending || job.status == JobStatus::Retry || job.status
        == JobStatus::Failed);
    assert(lost <==> p(before@.queue[i]));
    if !lost {
        before@.queue.lemma_filter_contains(q, i);
        let k = choose|k: int| 0 <= k < mid.len() && mid[k] == before@.queue[i];
        assert(after@.queue[k] == change(mid[k]));
        assert(after@.queue[k] == after.queue@[k]@);
    }
    if there {
        let k = choose|k: int|
            0 <= k < after.queue@.len() && (#[trigger] after.queue@[k]).handle@ == job.handle@;
        assert(after@.queue[k] == after.queue@[k]@);
        assert(after@.queue[k] == change(mid[k]));
        table::lemma_filter_members(before@.queue, q);
        assert(before@.queue.contains(mid[k]));
        let m = choose|m: int| 0 <= m < before@.queue.len() && before@.queue[m] == mid[k];
        let key = rows::job_key();
        if m < i {
            assert(key(before@.queue[m]) != key(before@.queue[i]));
        }
        if i < m {
            assert(key(before@.queue[i]) != key(before@.queue[m]));
        }
    }
}

/// Nothing is kept of a creator whose handle is none, whose average or median is
/// not a number, or two of whose posts have one address; every other creator is
/// kept.
pub proof fn law_what_is_not_kept(
    before: Database,
    after: Database,
    creator: CrawledCreator,
    options: RecordCreatorOptions,
    now: Seq<char>,
    r: Result<RecordOutcome, DbError>,
)
    requires
        record::record_result(before@, after@, creator@, options, now, r),
    ensures
        ({
            let posts = creator.snapshot.videos@;
            let nameless = handles::normalized_handle(creator.snapshot.handle@) is None;
            let unknown = creator.avg_views.is_nan() || creator.median_views.is_nan();
            let twice = exists|a: int, b: int|
                0 <= a < b < posts.len() && (#[trigger] posts[a]).url@ == (#[trigger] posts[b]).url@;
            &&& nameless ==> r == Err::<RecordOutcome, DbError>(DbError::InvalidCreatorHandle)
            &&& !nameless && unknown ==> r == Err::<RecordOutcome, DbError>(DbError::UnknownViews)
            &&& !nameless && !unknown && twice ==> r == Err::<RecordOutcome, DbError>(
                DbError::DuplicateVideo,
            )
            &&& !nameless && !unknown && !twice ==> r is Ok
            &&& r is Err ==> after@ == before@
        }),
{
    let posts = creator.snapshot.videos@;
    let views = creator@.snapshot.videos;
    if !record::urls_distinct(views) {
        let (a, b) = choose|a: int, b: int|
            0 <= a < b < views.len() && (#[trigger] views[a]).url == (#[trigger] views[b]).url;
        assert(views[a] == posts[a]@);
        assert(views[b] == posts[b]@);
        assert(posts[a].url@ == posts[b].url@);
    } else {
        assert forall|a: int, b: int| 0 <= a < b < posts.len() implies (
        #[trigger] posts[a]).url@ != (#[trigger] posts[b]).url@ by {
            assert(views[a] == posts[a]@);
            assert(views[b] == posts[b]@);
        }
    }
}

} // verus!
