//! Keeping what a crawl found.

use vstd::prelude::*;
use crate::db::apps;
use crate::db::filters;
use crate::db::filters::DbError;
use crate::db::joins;
use crate::db::outcomes;
use crate::db::outcomes::{Finish, PrunableFrom};
use crate::db::queue;
use crate::db::rows;
use crate::db::rows::{
    AppPolicy, ContactStatus, CreatorIs, CreatorRow, CreatorView, Database, DatabaseView,
    FollowRow, FollowView, JobIs, QueueRow, QueueView, VideoRow, VideoView,
};
use crate::db::table;
use crate::db::table::{RowChange, RowTest};
use crate::handles;
use crate::json;
use crate::json::{Json, JsonView};
use crate::json_text;
use crate::models;
use crate::models::{
    AppClassification, ClassificationView, CrawlView, CrawledCreator, PostView, TiktokPost,
};
use crate::moment;
use crate::search;
use crate::text;

verus! {

/// What follows from keeping a creator.
#[derive(Debug, Clone, Copy, PartialEq, Eq, Structural)]
pub struct RecordCreatorOptions {
    /// The accounts that a creator who promotes an app follows are put into the
    /// queue.
    pub enqueue_following: bool,
    /// Jobs that were found at a creator without an app are dropped.
    pub prune_no_app_children: bool,
}

impl Default for RecordCreatorOptions {
    fn default() -> (r: RecordCreatorOptions)
        ensures
            r.enqueue_following,
            r.prune_no_app_children,
    {
        RecordCreatorOptions { enqueue_following: true, prune_no_app_children: true }
    }
}

/// What came of keeping a creator.
pub struct RecordOutcome {
    pub promoted_app_name: Option<String>,
    pub enqueued_following_count: usize,
}

// ---------------------------------------------------------------------------
// The creator
// ---------------------------------------------------------------------------
/// The count, as far as the database can hold it.
pub open spec fn stored_count(n: u64) -> i64 {
    if n <= i64::MAX {
        n as i64
    } else {
        i64::MAX
    }
}

/// The count, as far as the database can hold it.
pub fn u64_to_i64(value: u64) -> (r: i64)
    ensures
        r == stored_count(value),
{
    if value <= 0x7fff_ffff_ffff_ffff {
        value as i64
    } else {
        i64::MAX
    }
}

pub open spec fn stored_opt(n: Option<u64>) -> Option<i64> {
    match n {
        Some(n) => Some(stored_count(n)),
        None => None,
    }
}

fn opt_to_i64(value: Option<u64>) -> (r: Option<i64>)
    ensures
        r == stored_opt(value),
{
    match value {
        Some(n) => Some(u64_to_i64(n)),
        None => None,
    }
}

/// A text that may be missing, as a document.
pub open spec fn opt_document(t: Option<Seq<char>>) -> JsonView {
    match t {
        Some(t) => JsonView::Text(t),
        None => JsonView::Null,
    }
}

/// A classification as a document.
pub open spec fn classification_document(c: ClassificationView, confidence: JsonView) -> JsonView {
    JsonView::Object(
        seq![
            ("promotes_app"@, JsonView::Bool(c.promotes_app)),
            ("app_name"@, opt_document(c.app_name)),
            ("is_existing_app"@, JsonView::Bool(c.is_existing_app)),
            ("existing_app_name"@, opt_document(c.existing_app_name)),
            ("is_new_app"@, JsonView::Bool(c.is_new_app)),
            ("supporting_post_count"@, json::number(c.supporting_post_count as nat)),
            ("language_code"@, JsonView::Text(c.language_code)),
            ("creator_name"@, opt_document(c.creator_name)),
            ("creator_email"@, opt_document(c.creator_email)),
            ("confidence"@, confidence),
            ("evidence"@, JsonView::Text(c.evidence)),
        ],
    )
}

/// The document that is kept of a crawl.
pub open spec fn kept_document(raw: JsonView, classification: JsonView) -> JsonView {
    JsonView::Object(seq![("creator"@, raw), ("classification"@, classification)])
}

/// The market of a creator: that of the language, else that of the profile.
pub open spec fn crawl_country(crawl: CrawlView) -> Option<Seq<char>> {
    joins::or_else(
        filters::market_of_language(crawl.latest_content.language_code),
        crawl.snapshot.country_code,
    )
}

/// The creator as a new row.
pub open spec fn crawled(crawl: CrawlView, handle: Seq<char>) -> CreatorView {
    CreatorView {
        handle: handle,
        display_name: crawl.snapshot.display_name,
        contact_name: crawl.classification.creator_name,
        bio: crawl.snapshot.bio,
        country_code: crawl_country(crawl),
        country_checked_at: None,
        country_error: None,
        follower_count: stored_opt(crawl.snapshot.follower_count),
        following_count: stored_opt(crawl.snapshot.following_count),
        avg_views: crawl.avg_views,
        median_views: crawl.median_views,
        most_viral_video_url: crawl.most_viral_video_url,
        most_viral_video_views: stored_opt(crawl.most_viral_video_views),
        latest_content_text: crawl.latest_content.text,
        promoted_app_name: models::app_candidate(crawl.classification),
        email: crawl.classification.creator_email,
        language_code: crawl.latest_content.language_code,
        scraped_at: moment::rfc3339_written(crawl.scraped_at),
        contact_status: ContactStatus::Unselected,
        contact_priority_at: None,
        contacted_at: None,
        raw_json: json_text::json_text(
            kept_document(
                crawl.snapshot.raw,
                classification_document(crawl.classification, crawl.confidence_json),
            ),
        ),
    }
}

/// What a new crawl does to a row: the contact state and the notes on the
/// country stay.
pub open spec fn recrawled(new: CreatorView) -> spec_fn(CreatorView) -> CreatorView {
    |c: CreatorView|
        if c.handle == new.handle {
            CreatorView {
                country_checked_at: c.country_checked_at,
                country_error: c.country_error,
                contact_status: c.contact_status,
                contact_priority_at: c.contact_priority_at,
                contacted_at: c.contacted_at,
                ..new
            }
        } else {
            c
        }
}

/// The table after a crawl.
pub open spec fn with_creator(creators: Seq<CreatorView>, new: CreatorView) -> Seq<CreatorView> {
    if rows::has_creator(creators, new.handle) {
        creators.map_values(recrawled(new))
    } else {
        creators.push(new)
    }
}

/// A copy of a row.
pub fn copy_creator(c: &CreatorRow) -> (r: CreatorRow)
    ensures
        r@ == c@,
{
    CreatorRow {
        handle: c.handle.clone(),
        display_name: models::copy_opt(&c.display_name),
        contact_name: models::copy_opt(&c.contact_name),
        bio: c.bio.clone(),
        country_code: models::copy_opt(&c.country_code),
        country_checked_at: models::copy_opt(&c.country_checked_at),
        country_error: models::copy_opt(&c.country_error),
        follower_count: c.follower_count,
        following_count: c.following_count,
        avg_views: c.avg_views,
        median_views: c.median_views,
        most_viral_video_url: models::copy_opt(&c.most_viral_video_url),
        most_viral_video_views: c.most_viral_video_views,
        latest_content_text: c.latest_content_text.clone(),
        promoted_app_name: models::copy_opt(&c.promoted_app_name),
        email: models::copy_opt(&c.email),
        language_code: c.language_code.clone(),
        scraped_at: c.scraped_at.clone(),
        contact_status: c.contact_status,
        contact_priority_at: models::copy_opt(&c.contact_priority_at),
        contacted_at: models::copy_opt(&c.contacted_at),
        raw_json: c.raw_json.clone(),
    }
}

struct Recrawl<'a> {
    new: &'a CreatorRow,
}

impl<'a> RowChange<CreatorRow> for Recrawl<'a> {
    closed spec fn changed(&self) -> spec_fn(CreatorView) -> CreatorView {
        recrawled(self.new@)
    }

    fn apply(&self, row: &mut CreatorRow) {
        if text::same(row.handle.as_str(), self.new.handle.as_str()) {
            let mut next: CreatorRow = copy_creator(self.new);
            next.country_checked_at = models::copy_opt(&row.country_checked_at);
            next.country_error = models::copy_opt(&row.country_error);
            next.contact_status = row.contact_status;
            next.contact_priority_at = models::copy_opt(&row.contact_priority_at);
            next.contacted_at = models::copy_opt(&row.contacted_at);
            *row = next;
        }
    }
}

fn document_of_opt(t: &Option<String>) -> (r: Json)
    ensures
        r@ == opt_document(models::opt_text(*t)),
{
    match t {
        Some(t) => json::text_of(t.as_str()),
        None => Json::Null,
    }
}

fn classified_document(c: &AppClassification, confidence: &Json) -> (r: Json)
    ensures
        r@ == classification_document(c@, confidence@),
{
    let entries: Vec<(String, Json)> = vec![
        json::entry_of("promotes_app", Json::Bool(c.promotes_app)),
        json::entry_of("app_name", document_of_opt(&c.app_name)),
        json::entry_of("is_existing_app", Json::Bool(c.is_existing_app)),
        json::entry_of("existing_app_name", document_of_opt(&c.existing_app_name)),
        json::entry_of("is_new_app", Json::Bool(c.is_new_app)),
        json::entry_of("supporting_post_count", json::number_of(c.supporting_post_count as u32)),
        json::entry_of("language_code", json::text_of(c.language_code.as_str())),
        json::entry_of("creator_name", document_of_opt(&c.creator_name)),
        json::entry_of("creator_email", document_of_opt(&c.creator_email)),
        json::entry_of("confidence", confidence.copy()),
        json::entry_of("evidence", json::text_of(c.evidence.as_str())),
    ];
    assert(json::entry_views(entries@) =~= classification_document(c@, confidence@)->Object_0);
    json::object_of(entries)
}

fn document_text(raw: &Json, c: &AppClassification, confidence: &Json) -> (r: String)
    ensures
        r@ == json_text::json_text(
            kept_document(raw@, classification_document(c@, confidence@)),
        ),
{
    let classification: Json = classified_document(c, confidence);
    let entries: Vec<(String, Json)> = vec![
        json::entry_of("creator", raw.copy()),
        json::entry_of("classification", classification),
    ];
    assert(json::entry_views(entries@) =~= kept_document(
        raw@,
        classification_document(c@, confidence@),
    )->Object_0);
    let document: Json = json::object_of(entries);
    json_text::to_text(&document)
}

fn crawled_row(creator: &CrawledCreator, handle: &str) -> (r: CreatorRow)
    requires
        creator.scraped_at.wf(),
    ensures
        r@ == crawled(creator@, handle@),
{
    let language: Option<String> = filters::country_code_for_language(
        creator.latest_content.language_code.as_str(),
    );
    CreatorRow {
        handle: handle.to_string(),
        display_name: models::copy_opt(&creator.snapshot.display_name),
        contact_name: models::copy_opt(&creator.classification.creator_name),
        bio: creator.snapshot.bio.clone(),
        country_code: joins::first_text(&language, &creator.snapshot.country_code),
        country_checked_at: None,
        country_error: None,
        follower_count: opt_to_i64(creator.snapshot.follower_count),
        following_count: opt_to_i64(creator.snapshot.following_count),
        avg_views: creator.avg_views,
        median_views: creator.median_views,
        most_viral_video_url: models::copy_opt(&creator.stats.most_viral_video_url),
        most_viral_video_views: opt_to_i64(creator.stats.most_viral_video_views),
        latest_content_text: creator.latest_content.text.clone(),
        promoted_app_name: creator.classification.canonical_app_name(),
        email: models::copy_opt(&creator.classification.creator_email),
        language_code: creator.latest_content.language_code.clone(),
        scraped_at: moment::to_rfc3339(creator.scraped_at),
        contact_status: ContactStatus::Unselected,
        contact_priority_at: None,
        contacted_at: None,
        raw_json: document_text(
            &creator.snapshot.raw,
            &creator.classification,
            &creator.confidence_json,
        ),
    }
}

fn keep_creator(creators: &mut Vec<CreatorRow>, new: CreatorRow)
    ensures
        table::views(final(creators)@) == with_creator(table::views(old(creators)@), new@),
{
    if table::any_row(creators, &CreatorIs { handle: new.handle.as_str() }) {
        table::update_rows(creators, &Recrawl { new: &new });
    } else {
        let ghost before = creators@;
        creators.push(new);
        assert(table::views(creators@) =~= table::views(before).push(new@));
    }
}

// ---------------------------------------------------------------------------
// The posts
// ---------------------------------------------------------------------------
pub open spec fn video_of(handle: Seq<char>) -> spec_fn(VideoView) -> bool {
    |v: VideoView| v.creator_handle == handle
}

/// The post is one of the creator.
pub struct VideoOf<'a> {
    pub handle: &'a str,
}

impl<'a> RowTest<VideoRow> for VideoOf<'a> {
    open spec fn wanted(&self) -> spec_fn(VideoView) -> bool {
        video_of(self.handle@)
    }

    fn test(&self, row: &VideoRow) -> (r: bool) {
        text::same(row.creator_handle.as_str(), self.handle)
    }
}

/// A post as a row.
pub open spec fn kept_video(
    handle: Seq<char>,
    post: PostView,
    latest_url: Seq<char>,
    viral_url: Option<Seq<char>>,
) -> VideoView {
    VideoView {
        creator_handle: handle,
        tiktok_url: post.url,
        post_id: post.id,
        kind: post.kind,
        views: stored_count(post.views),
        caption: post.caption,
        published_at: match post.published_at {
            Some(at) => Some(moment::rfc3339_written(at)),
            None => None,
        },
        source_url: post.source_url,
        is_pinned: post.is_pinned,
        is_latest: post.url == latest_url,
        is_most_viral: viral_url == Some(post.url),
        raw_json: json_text::json_text(post.raw),
    }
}

/// The posts as rows; the first of them is the latest.
pub open spec fn kept_videos(
    handle: Seq<char>,
    posts: Seq<PostView>,
    viral_url: Option<Seq<char>>,
) -> Seq<VideoView> {
    posts.map_values(|p: PostView| kept_video(handle, p, posts[0].url, viral_url))
}

/// No two posts have the same address.
pub open spec fn urls_distinct(posts: Seq<PostView>) -> bool {
    forall|i: int, j: int|
        0 <= i < j < posts.len() ==> (#[trigger] posts[i]).url != (#[trigger] posts[j]).url
}

fn check_urls(posts: &Vec<TiktokPost>) -> (r: bool)
    ensures
        r == urls_distinct(models::post_views(posts@)),
{
    let ghost all = models::post_views(posts@);
    let mut i: usize = 0;
    while i < posts.len()
        invariant
            i <= posts@.len(),
            all == models::post_views(posts@),
            forall|a: int, b: int|
                0 <= a < b < i ==> (#[trigger] all[a]).url != (#[trigger] all[b]).url,
        decreases posts@.len() - i,
    {
        let mut j: usize = 0;
        while j < i
            invariant
                j <= i < posts@.len(),
                all == models::post_views(posts@),
                forall|a: int| 0 <= a < j ==> (#[trigger] all[a]).url != all[i as int].url,
            decreases i - j,
        {
            assert(all[j as int] == posts@[j as int]@);
            assert(all[i as int] == posts@[i as int]@);
            if text::same(posts[j].url.as_str(), posts[i].url.as_str()) {
                assert(all[j as int].url == all[i as int].url);
                return false;
            }
            j = j + 1;
        }
        i = i + 1;
    }
    true
}

fn video_row(handle: &str, post: &TiktokPost, latest_url: &str, viral_url: &Option<String>) -> (r:
    VideoRow)
    requires
        match post.published_at {
            Some(at) => at.wf(),
            None => true,
        },
    ensures
        r@ == kept_video(handle@, post@, latest_url@, models::opt_text(*viral_url)),
{
    VideoRow {
        creator_handle: handle.to_string(),
        tiktok_url: post.url.clone(),
        post_id: models::copy_opt(&post.id),
        kind: post.kind,
        views: u64_to_i64(post.views),
        caption: models::copy_opt(&post.caption),
        published_at: match post.published_at {
            Some(at) => Some(moment::to_rfc3339(at)),
            None => None,
        },
        source_url: models::copy_opt(&post.source_url),
        is_pinned: post.is_pinned,
        is_latest: text::same(post.url.as_str(), latest_url),
        is_most_viral: filters::is_text(viral_url, post.url.as_str()),
        raw_json: json_text::to_text(&post.raw),
    }
}

/// The table after the posts of one creator were replaced.
pub open spec fn with_videos(
    videos: Seq<VideoView>,
    handle: Seq<char>,
    posts: Seq<PostView>,
    viral_url: Option<Seq<char>>,
) -> Seq<VideoView> {
    table::without(videos, video_of(handle)) + kept_videos(handle, posts, viral_url)
}

fn keep_videos(
    videos: &mut Vec<VideoRow>,
    handle: &str,
    posts: &Vec<TiktokPost>,
    viral_url: &Option<String>,
)
    requires
        models::dates_wf(models::post_views(posts@)),
    ensures
        table::views(final(videos)@) == with_videos(
            table::views(old(videos)@),
            handle@,
            models::post_views(posts@),
            models::opt_text(*viral_url),
        ),
{
    let _gone: usize = table::delete_rows(videos, &VideoOf { handle });
    let ghost start = table::views(videos@);
    let ghost all = models::post_views(posts@);
    let ghost want = kept_videos(handle@, all, models::opt_text(*viral_url));
    let mut i: usize = 0;
    assert(start + want.take(0) =~= start);
    while i < posts.len()
        invariant
            i <= posts@.len(),
            all == models::post_views(posts@),
            models::dates_wf(all),
            want == kept_videos(handle@, all, models::opt_text(*viral_url)),
            table::views(videos@) == start + want.take(i as int),
        decreases posts@.len() - i,
    {
        let ghost before = videos@;
        proof {
            assert(all[i as int] == posts@[i as int]@);
            assert(all[0] == posts@[0]@);
        }
        let row: VideoRow = video_row(handle, &posts[i], posts[0].url.as_str(), viral_url);
        videos.push(row);
        i = i + 1;
        proof {
            assert(row@ == want[i - 1]);
            assert(table::views(videos@) =~= table::views(before).push(row@));
            assert(start + want.take(i as int) =~= (start + want.take(i - 1)).push(want[i - 1]));
        }
    }
    assert(want.take(i as int) =~= want);
}

// ---------------------------------------------------------------------------
// The followed accounts
// ---------------------------------------------------------------------------
pub open spec fn follow_of(handle: Seq<char>) -> spec_fn(FollowView) -> bool {
    |f: FollowView| f.creator_handle == handle
}

/// The creator follows the account.
pub struct FollowOf<'a> {
    pub handle: &'a str,
}

impl<'a> RowTest<FollowRow> for FollowOf<'a> {
    open spec fn wanted(&self) -> spec_fn(FollowView) -> bool {
        follow_of(self.handle@)
    }

    fn test(&self, row: &FollowRow) -> (r: bool) {
        text::same(row.creator_handle.as_str(), self.handle)
    }
}

pub open spec fn other_than(handle: Seq<char>) -> spec_fn(Seq<char>) -> bool {
    |h: Seq<char>| h != handle
}

/// The accounts that a creator follows, without the creator, in ascending
/// order, each once.
pub open spec fn followed(handle: Seq<char>, following: Seq<Seq<char>>) -> Seq<Seq<char>> {
    handles::normalized_handles(following).filter(other_than(handle))
}

/// The accounts that a creator follows, without the creator.
pub fn followed_by(handle: &str, following: &Vec<String>) -> (r: Vec<String>)
    ensures
        search::texts(r@) == followed(handle@, search::texts(following@)),
{
    let list: Vec<String> = handles::normalize_many(following);
    let ghost all = search::texts(list@);
    let ghost p = other_than(handle@);
    let mut r: Vec<String> = Vec::new();
    let mut i: usize = 0;
    proof {
        reveal(Seq::filter);
        assert(search::texts(r@) =~= all.take(0).filter(p));
    }
    while i < list.len()
        invariant
            i <= list@.len(),
            all == search::texts(list@),
            p == other_than(handle@),
            search::texts(r@) == all.take(i as int).filter(p),
        decreases list@.len() - i,
    {
        let ghost before = r@;
        proof {
            assert(all.take(i + 1) =~= all.take(i as int).push(all[i as int]));
            search::lemma_filter_push(all.take(i as int), p, all[i as int]);
        }
        if !text::same(list[i].as_str(), handle) {
            r.push(list[i].clone());
            assert(search::texts(r@) =~= search::texts(before).push(all[i as int]));
        }
        i = i + 1;
    }
    assert(all.take(i as int) =~= all);
    r
}

pub open spec fn kept_follows(handle: Seq<char>, accounts: Seq<Seq<char>>) -> Seq<FollowView> {
    accounts.map_values(
        |h: Seq<char>| FollowView { creator_handle: handle, follows_handle: h },
    )
}

/// The table after the followed accounts of one creator were replaced.
pub open spec fn with_follows(
    follows: Seq<FollowView>,
    handle: Seq<char>,
    accounts: Seq<Seq<char>>,
) -> Seq<FollowView> {
    table::without(follows, follow_of(handle)) + kept_follows(handle, accounts)
}

fn keep_follows(follows: &mut Vec<FollowRow>, handle: &str, accounts: &Vec<String>)
    ensures
        table::views(final(follows)@) == with_follows(
            table::views(old(follows)@),
            handle@,
            search::texts(accounts@),
        ),
{
    let _gone: usize = table::delete_rows(follows, &FollowOf { handle });
    let ghost start = table::views(follows@);
    let ghost want = kept_follows(handle@, search::texts(accounts@));
    let mut i: usize = 0;
    assert(start + want.take(0) =~= start);
    while i < accounts.len()
        invariant
            i <= accounts@.len(),
            want == kept_follows(handle@, search::texts(accounts@)),
            table::views(follows@) == start + want.take(i as int),
        decreases accounts@.len() - i,
    {
        let ghost before = follows@;
        let row: FollowRow = FollowRow {
            creator_handle: handle.to_string(),
            follows_handle: accounts[i].clone(),
        };
        follows.push(row);
        i = i + 1;
        proof {
            assert(row@ == want[i - 1]);
            assert(table::views(follows@) =~= table::views(before).push(row@));
            assert(start + want.take(i as int) =~= (start + want.take(i - 1)).push(want[i - 1]));
        }
    }
    assert(want.take(i as int) =~= want);
}

// ---------------------------------------------------------------------------
// The jobs that follow
// ---------------------------------------------------------------------------
/// The queue after the accounts were put in, as far as they are neither known
/// nor there.
pub open spec fn with_followed(
    creators: Seq<CreatorView>,
    jobs: Seq<QueueView>,
    accounts: Seq<Seq<char>>,
    from: Seq<char>,
    app: Option<Seq<char>>,
    now: Seq<char>,
) -> Seq<QueueView>
    decreases accounts.len(),
{
    if accounts.len() == 0 {
        jobs
    } else {
        let before = with_followed(creators, jobs, accounts.drop_last(), from, app, now);
        if queue::adds_job(creators, before, accounts.last()) {
            before.push(queue::new_job(accounts.last(), Some(from), app, now, false))
        } else {
            before
        }
    }
}

fn enqueue_followed(
    creators: &Vec<CreatorRow>,
    jobs: &mut Vec<QueueRow>,
    accounts: &Vec<String>,
    from: &str,
    app: &Option<String>,
    now: &str,
) -> (r: usize)
    ensures
        table::views(final(jobs)@) == with_followed(
            table::views(creators@),
            table::views(old(jobs)@),
            search::texts(accounts@),
            from@,
            models::opt_text(*app),
            now@,
        ),
        r == final(jobs)@.len() - old(jobs)@.len(),
{
    let ghost start = table::views(jobs@);
    let ghost all = search::texts(accounts@);
    let mut added: usize = 0;
    let mut i: usize = 0;
    assert(all.take(0) =~= Seq::<Seq<char>>::empty());
    while i < accounts.len()
        invariant
            i <= accounts@.len(),
            added <= i,
            all == search::texts(accounts@),
            table::views(jobs@) == with_followed(
                table::views(creators@),
                start,
                all.take(i as int),
                from@,
                models::opt_text(*app),
                now@,
            ),
            jobs@.len() == start.len() + added,
        decreases accounts@.len() - i,
    {
        let handle: &str = accounts[i].as_str();
        proof {
            assert(all.take(i + 1).drop_last() =~= all.take(i as int));
            assert(all.take(i + 1).last() == handle@);
        }
        let known: bool = table::any_row(creators, &CreatorIs { handle });
        let queued: bool = table::any_row(jobs, &JobIs { handle });
        if !known && !queued {
            let ghost before = jobs@;
            queue::push_job(
                jobs,
                handle,
                Some(from.to_string()),
                models::copy_opt(app),
                now,
                false,
            );
            assert(table::views(jobs@).len() == table::views(before).len() + 1);
            added = added + 1;
        }
        i = i + 1;
    }
    assert(all.take(i as int) =~= all);
    added
}

/// The creator is classified as promoting an app, and the app has a name.
pub open spec fn promotes(c: ClassificationView) -> bool {
    c.promotes_app && models::app_candidate(c) is Some
}

/// The accounts that a creator follows are put into the queue: only where the
/// creator promotes an app, and the app is not on the black list.
pub open spec fn spreads(db: DatabaseView, crawl: CrawlView, options: RecordCreatorOptions) -> bool {
    &&& crawl.classification.promotes_app
    &&& options.enqueue_following
    &&& match models::app_candidate(crawl.classification) {
        Some(name) => apps::policy_named(db.apps, name) != AppPolicy::Blacklist,
        None => false,
    }
}

/// The jobs that were found at the creator are dropped: where the classification
/// names no app.
pub open spec fn prunes(crawl: CrawlView, options: RecordCreatorOptions) -> bool {
    models::app_candidate(crawl.classification) is None && options.prune_no_app_children
}

/// The queue once the creator's app is known, before the creator's own job is
/// done.
pub open spec fn jobs_after(
    db: DatabaseView,
    creators: Seq<CreatorView>,
    crawl: CrawlView,
    handle: Seq<char>,
    options: RecordCreatorOptions,
    now: Seq<char>,
) -> Seq<QueueView> {
    if spreads(db, crawl, options) {
        with_followed(
            creators,
            db.queue,
            followed(handle, crawl.snapshot.following),
            handle,
            models::app_candidate(crawl.classification),
            now,
        )
    } else if prunes(crawl, options) {
        table::without(db.queue, outcomes::prunable_from(handle))
    } else {
        db.queue
    }
}

/// The database after a creator was kept.
pub open spec fn recorded(
    db: DatabaseView,
    crawl: CrawlView,
    handle: Seq<char>,
    options: RecordCreatorOptions,
    now: Seq<char>,
) -> DatabaseView {
    let scraped_at = moment::rfc3339_written(crawl.scraped_at);
    let creators = with_creator(db.creators, crawled(crawl, handle));
    DatabaseView {
        apps: match models::app_candidate(crawl.classification) {
            Some(name) => apps::with_app_seen(db.apps, name, scraped_at),
            None => db.apps,
        },
        creators: creators,
        videos: with_videos(
            db.videos,
            handle,
            crawl.snapshot.videos,
            crawl.most_viral_video_url,
        ),
        follows: with_follows(
            db.follows,
            handle,
            followed(handle, crawl.snapshot.following),
        ),
        queue: jobs_after(db, creators, crawl, handle, options, now).map_values(
            outcomes::finished(handle, scraped_at),
        ),
        ..db
    }
}

/// How many jobs keeping a creator adds.
pub open spec fn jobs_spread(
    db: DatabaseView,
    crawl: CrawlView,
    handle: Seq<char>,
    options: RecordCreatorOptions,
    now: Seq<char>,
) -> int {
    if spreads(db, crawl, options) {
        recorded(db, crawl, handle, options, now).queue.len() - db.queue.len()
    } else {
        0
    }
}

impl Database {
    /// Keeps what a crawl found, and puts the followed accounts of a creator who
    /// promotes an app into the queue.
    pub fn record_creator(&mut self, creator: &CrawledCreator, now: &str) -> (r: Result<
        RecordOutcome,
        DbError,
    >)
        requires
            old(self)@.wf(),
            creator.scraped_at.wf(),
            models::dates_wf(creator@.snapshot.videos),
        ensures
            final(self)@.wf(),
            record_result(
                old(self)@,
                final(self)@,
                creator@,
                RecordCreatorOptions { enqueue_following: true, prune_no_app_children: true },
                now@,
                r,
            ),
    {
        self.record_creator_with_options(creator, RecordCreatorOptions::default(), now)
    }

    /// Keeps what a crawl found. Nothing is kept where the handle is not valid,
    /// a statistic is not a number, or two posts have the same address.
    pub fn record_creator_with_options(
        &mut self,
        creator: &CrawledCreator,
        options: RecordCreatorOptions,
        now: &str,
    ) -> (r: Result<RecordOutcome, DbError>)
        requires
            old(self)@.wf(),
            creator.scraped_at.wf(),
            models::dates_wf(creator@.snapshot.videos),
        ensures
            final(self)@.wf(),
            record_result(old(self)@, final(self)@, creator@, options, now@, r),
    {
        let ghost start = self@;
        let handle: String = match handles::normalize_handle(creator.snapshot.handle.as_str()) {
            Some(handle) => handle,
            None => {
                return Err(DbError::InvalidCreatorHandle);
            },
        };
        if creator.avg_views.nan() || creator.median_views.nan() {
            return Err(DbError::UnknownViews);
        }
        if !check_urls(&creator.snapshot.videos) {
            return Err(DbError::DuplicateVideo);
        }
        let h: &str = handle.as_str();
        let scraped_at: String = moment::to_rfc3339(creator.scraped_at);
        let app: Option<String> = creator.classification.canonical_app_name();
        let blacklisted: bool = match &app {
            Some(name) => match apps::find_policy(&self.apps, name.as_str()) {
                AppPolicy::Blacklist => true,
                _ => false,
            },
            None => false,
        };
        if let Some(name) = &app {
            apps::see_app(&mut self.apps, name.as_str(), scraped_at.as_str());
        }
        let row: CreatorRow = crawled_row(creator, h);
        keep_creator(&mut self.creators, row);
        keep_videos(
            &mut self.videos,
            h,
            &creator.snapshot.videos,
            &creator.stats.most_viral_video_url,
        );
        let accounts: Vec<String> = followed_by(h, &creator.snapshot.following);
        keep_follows(&mut self.follows, h, &accounts);
        let mut added: usize = 0;
        let promotes: bool = creator.classification.promotes_app && app.is_some();
        if promotes && !blacklisted && options.enqueue_following {
            added = enqueue_followed(&self.creators, &mut self.queue, &accounts, h, &app, now);
        } else if app.is_none() && options.prune_no_app_children {
            let _pruned: usize = table::delete_rows(
                &mut self.queue,
                &PrunableFrom { source: h },
            );
        }
        table::update_rows(&mut self.queue, &Finish { handle: h, at: scraped_at.as_str() });
        proof {
            lemma_recorded(start, creator@, handle@, options, now@);
        }
        Ok(RecordOutcome { promoted_app_name: app, enqueued_following_count: added })
    }
}

/// What keeping a creator returns and does to the database.
pub open spec fn record_result(
    before: DatabaseView,
    after: DatabaseView,
    crawl: CrawlView,
    options: RecordCreatorOptions,
    now: Seq<char>,
    r: Result<RecordOutcome, DbError>,
) -> bool {
    match handles::normalized_handle(crawl.snapshot.handle) {
        None => after == before && r == Err::<RecordOutcome, DbError>(
            DbError::InvalidCreatorHandle,
        ),
        Some(handle) => if crawl.avg_views.is_nan() || crawl.median_views.is_nan() {
            after == before && r == Err::<RecordOutcome, DbError>(DbError::UnknownViews)
        } else if !urls_distinct(crawl.snapshot.videos) {
            after == before && r == Err::<RecordOutcome, DbError>(DbError::DuplicateVideo)
        } else {
            &&& after == recorded(before, crawl, handle, options, now)
            &&& r matches Ok(outcome)
            &&& models::opt_text(outcome.promoted_app_name) == models::app_candidate(
                crawl.classification,
            )
            &&& outcome.enqueued_following_count == jobs_spread(
                before,
                crawl,
                handle,
                options,
                now,
            )
        },
    }
}

// ---------------------------------------------------------------------------
// What stays
// ---------------------------------------------------------------------------
proof fn lemma_with_creator(creators: Seq<CreatorView>, new: CreatorView)
    requires
        table::distinct_by(creators, rows::creator_key()),
    ensures
        table::distinct_by(with_creator(creators, new), rows::creator_key()),
        forall|h: Seq<char>|
            #[trigger] rows::has_creator(with_creator(creators, new), h) == (rows::has_creator(
                creators,
                h,
            ) || h == new.handle),
        forall|i: int|
            0 <= i < with_creator(creators, new).len() ==> {
                let c = #[trigger] with_creator(creators, new)[i];
                c.promoted_app_name == new.promoted_app_name || creators.contains(c)
            },
{
    let next = with_creator(creators, new);
    if rows::has_creator(creators, new.handle) {
        table::lemma_distinct_map(creators, recrawled(new), rows::creator_key());
        assert forall|h: Seq<char>|
            #[trigger] rows::has_creator(next, h) == (rows::has_creator(creators, h) || h
                == new.handle) by {
            table::lemma_some_row_map(creators, recrawled(new), rows::creator_is(h));
        }
        assert forall|i: int| 0 <= i < next.len() implies {
            let c = #[trigger] next[i];
            c.promoted_app_name == new.promoted_app_name || creators.contains(c)
        } by {
            assert(next[i] == recrawled(new)(creators[i]));
            assert(creators.contains(creators[i]));
        }
    } else {
        let key = rows::creator_key();
        assert forall|i: int| 0 <= i < creators.len() implies key(#[trigger] creators[i]) != key(
            new,
        ) by {
            if creators[i].handle == new.handle {
                assert(rows::creator_is(new.handle)(creators[i]));
            }
        }
        table::lemma_distinct_push(creators, new, key);
        assert forall|h: Seq<char>|
            #[trigger] rows::has_creator(next, h) == (rows::has_creator(creators, h) || h
                == new.handle) by {
            table::lemma_some_row_push(creators, new, rows::creator_is(h));
        }
        assert forall|i: int| 0 <= i < next.len() implies {
            let c = #[trigger] next[i];
            c.promoted_app_name == new.promoted_app_name || creators.contains(c)
        } by {
            if i < creators.len() {
                assert(next[i] == creators[i]);
                assert(creators.contains(creators[i]));
            }
        }
    }
}

proof fn lemma_with_videos(
    videos: Seq<VideoView>,
    handle: Seq<char>,
    posts: Seq<PostView>,
    viral_url: Option<Seq<char>>,
)
    requires
        table::distinct_by(videos, rows::video_key()),
        urls_distinct(posts),
    ensures
        table::distinct_by(with_videos(videos, handle, posts, viral_url), rows::video_key()),
        forall|i: int|
            0 <= i < with_videos(videos, handle, posts, viral_url).len() ==> {
                let v = #[trigger] with_videos(videos, handle, posts, viral_url)[i];
                v.creator_handle == handle || videos.contains(v)
            },
{
    let kept = table::without(videos, video_of(handle));
    let new = kept_videos(handle, posts, viral_url);
    let all = with_videos(videos, handle, posts, viral_url);
    let key = rows::video_key();
    table::lemma_distinct_filter(videos, table::opposite(video_of(handle)), key);
    table::lemma_filter_members(videos, table::opposite(video_of(handle)));
    assert forall|i: int, j: int| 0 <= i < j < all.len() implies key(#[trigger] all[i]) != key(
        #[trigger] all[j],
    ) by {
        if j < kept.len() {
            assert(key(kept[i]) != key(kept[j]));
        } else if i < kept.len() {
            assert(all[i] == kept[i]);
            assert(all[j] == new[j - kept.len()]);
        } else {
            assert(all[i] == new[i - kept.len()]);
            assert(all[j] == new[j - kept.len()]);
            assert(posts[i - kept.len()].url != posts[j - kept.len()].url);
        }
    }
    assert forall|i: int| 0 <= i < all.len() implies {
        let v = #[trigger] all[i];
        v.creator_handle == handle || videos.contains(v)
    } by {
        if i < kept.len() {
            assert(all[i] == kept[i]);
        } else {
            assert(all[i] == new[i - kept.len()]);
        }
    }
}

proof fn lemma_followed_distinct(handle: Seq<char>, following: Seq<Seq<char>>)
    ensures
        table::distinct_by(followed(handle, following), |h: Seq<char>| h),
{
    let list = handles::normalized_handles(following);
    crate::order::lemma_sorted_set(
        crate::lists::present(
            following.map_values(|s: Seq<char>| handles::normalized_handle(s)),
        ),
    );
    let key = |h: Seq<char>| h;
    assert(table::distinct_by(list, key)) by {
        assert forall|i: int, j: int| 0 <= i < j < list.len() implies key(#[trigger] list[i])
            != key(#[trigger] list[j]) by {
            assert(crate::order::text_order()(list[i], list[j]));
            crate::order::lemma_before_irreflexive(list[i]);
        }
    }
    table::lemma_distinct_filter(list, other_than(handle), key);
}

proof fn lemma_with_follows(
    follows: Seq<FollowView>,
    handle: Seq<char>,
    following: Seq<Seq<char>>,
)
    requires
        table::distinct_by(follows, rows::follow_key()),
    ensures
        table::distinct_by(
            with_follows(follows, handle, followed(handle, following)),
            rows::follow_key(),
        ),
        forall|i: int|
            0 <= i < with_follows(follows, handle, followed(handle, following)).len() ==> {
                let f = #[trigger] with_follows(follows, handle, followed(handle, following))[i];
                f.creator_handle == handle || follows.contains(f)
            },
{
    let accounts = followed(handle, following);
    let kept = table::without(follows, follow_of(handle));
    let new = kept_follows(handle, accounts);
    let all = with_follows(follows, handle, accounts);
    let key = rows::follow_key();
    lemma_followed_distinct(handle, following);
    let own = |h: Seq<char>| h;
    table::lemma_distinct_filter(follows, table::opposite(follow_of(handle)), key);
    table::lemma_filter_members(follows, table::opposite(follow_of(handle)));
    assert forall|i: int, j: int| 0 <= i < j < all.len() implies key(#[trigger] all[i]) != key(
        #[trigger] all[j],
    ) by {
        if j < kept.len() {
            assert(key(kept[i]) != key(kept[j]));
        } else if i < kept.len() {
            assert(all[i] == kept[i]);
            assert(all[j] == new[j - kept.len()]);
        } else {
            assert(all[i] == new[i - kept.len()]);
            assert(all[j] == new[j - kept.len()]);
            assert(own(accounts[i - kept.len()]) != own(accounts[j - kept.len()]));
        }
    }
    assert forall|i: int| 0 <= i < all.len() implies {
        let f = #[trigger] all[i];
        f.creator_handle == handle || follows.contains(f)
    } by {
        if i < kept.len() {
            assert(all[i] == kept[i]);
        } else {
            assert(all[i] == new[i - kept.len()]);
        }
    }
}

proof fn lemma_with_followed(
    creators: Seq<CreatorView>,
    jobs: Seq<QueueView>,
    accounts: Seq<Seq<char>>,
    from: Seq<char>,
    app: Option<Seq<char>>,
    now: Seq<char>,
)
    requires
        table::distinct_by(jobs, rows::job_key()),
    ensures
        table::distinct_by(
            with_followed(creators, jobs, accounts, from, app, now),
            rows::job_key(),
        ),
    decreases accounts.len(),
{
    if accounts.len() > 0 {
        lemma_with_followed(creators, jobs, accounts.drop_last(), from, app, now);
        let before = with_followed(creators, jobs, accounts.drop_last(), from, app, now);
        if queue::adds_job(creators, before, accounts.last()) {
            queue::lemma_push_new_job(
                before,
                queue::new_job(accounts.last(), Some(from), app, now, false),
            );
        }
    }
}

proof fn lemma_recorded(
    db: DatabaseView,
    crawl: CrawlView,
    handle: Seq<char>,
    options: RecordCreatorOptions,
    now: Seq<char>,
)
    requires
        db.wf(),
        urls_distinct(crawl.snapshot.videos),
    ensures
        recorded(db, crawl, handle, options, now).wf(),
{
    let next = recorded(db, crawl, handle, options, now);
    let scraped_at = moment::rfc3339_written(crawl.scraped_at);
    let new = crawled(crawl, handle);
    if let Some(name) = models::app_candidate(crawl.classification) {
        apps::lemma_with_app_seen(db.apps, name, scraped_at);
    }
    lemma_with_creator(db.creators, new);
    lemma_with_videos(db.videos, handle, crawl.snapshot.videos, crawl.most_viral_video_url);
    lemma_with_follows(db.follows, handle, crawl.snapshot.following);
    let jobs = jobs_after(db, next.creators, crawl, handle, options, now);
    if spreads(db, crawl, options) {
        lemma_with_followed(
            next.creators,
            db.queue,
            followed(handle, crawl.snapshot.following),
            handle,
            models::app_candidate(crawl.classification),
            now,
        );
    } else if prunes(crawl, options) {
        table::lemma_distinct_filter(
            db.queue,
            table::opposite(outcomes::prunable_from(handle)),
            rows::job_key(),
        );
    }
    table::lemma_distinct_map(jobs, outcomes::finished(handle, scraped_at), rows::job_key());
    assert(rows::apps_known(next)) by {
        assert forall|i: int| 0 <= i < next.creators.len() implies match (
        #[trigger] next.creators[i]).promoted_app_name {
            Some(name) => rows::has_app(next.apps, name),
            None => true,
        } by {
            let c = next.creators[i];
            if c.promoted_app_name != new.promoted_app_name {
                assert(db.creators.contains(c));
                let k = choose|k: int| 0 <= k < db.creators.len() && db.creators[k] == c;
                assert(db.creators[k].promoted_app_name == c.promoted_app_name);
            }
        }
    }
    assert(rows::owners_known(next)) by {
        assert(rows::has_creator(next.creators, handle));
        assert forall|i: int| 0 <= i < next.videos.len() implies rows::has_creator(
            next.creators,
            (#[trigger] next.videos[i]).creator_handle,
        ) by {
            let v = next.videos[i];
            if v.creator_handle != handle {
                let k = choose|k: int| 0 <= k < db.videos.len() && db.videos[k] == v;
                assert(rows::has_creator(db.creators, db.videos[k].creator_handle));
            }
        }
        assert forall|i: int| 0 <= i < next.follows.len() implies rows::has_creator(
            next.creators,
            (#[trigger] next.follows[i]).creator_handle,
        ) by {
            let f = next.follows[i];
            if f.creator_handle != handle {
                let k = choose|k: int| 0 <= k < db.follows.len() && db.follows[k] == f;
                assert(rows::has_creator(db.creators, db.follows[k].creator_handle));
            }
        }
    }
}

} // verus!
