//! Rows are read column by column, and states are written in words.

use vstd::prelude::*;
use crate::db::filters::DbError;
use crate::db::items::{CreatorListItem, FrontierJob, QueueStatusCount};
use crate::db::rows::{
    AppPolicy, AppRow, BucketRow, ContactStatus, CreatorRow, Database, FollowRow, ItemRow,
    JobStatus, QueueRow, RunRow, RunStatus, VideoRow,
};
use crate::db::table;
use crate::models;
use crate::models::{
    AppClassification, CrawledCreator, CreatorSnapshot, ExtractedContent, LanguageClassification,
    QueueItem, TiktokPost,
};
use crate::order;
use crate::ranking;
use crate::ranking::SortView;

verus! {

/// A text that may be missing is read as the text where it is there.
pub proof fn law_texts_that_may_be_missing(t: String)
    ensures
        models::opt_text(Some(t)) == Some(t@),
        models::opt_text(None) is None,
{
}

/// The row of an app is read column by column.
pub proof fn law_columns_of_app(row: AppRow)
    ensures
        row@.name == row.name@,
        row@.first_seen_at == row.first_seen_at@,
        row@.last_seen_at == row.last_seen_at@,
        row@.policy == row.policy,
{
}

/// The row of a creator is read column by column.
pub proof fn law_columns_of_creator(row: CreatorRow)
    ensures
        row@.handle == row.handle@,
        row@.display_name == models::opt_text(row.display_name),
        row@.contact_name == models::opt_text(row.contact_name),
        row@.bio == row.bio@,
        row@.country_code == models::opt_text(row.country_code),
        row@.country_checked_at == models::opt_text(row.country_checked_at),
        row@.country_error == models::opt_text(row.country_error),
        row@.follower_count == row.follower_count,
        row@.following_count == row.following_count,
        row@.avg_views == row.avg_views,
        row@.median_views == row.median_views,
        row@.most_viral_video_url == models::opt_text(row.most_viral_video_url),
        row@.most_viral_video_views == row.most_viral_video_views,
        row@.latest_content_text == row.latest_content_text@,
        row@.promoted_app_name == models::opt_text(row.promoted_app_name),
        row@.email == models::opt_text(row.email),
        row@.language_code == row.language_code@,
        row@.scraped_at == row.scraped_at@,
        row@.contact_status == row.contact_status,
        row@.contact_priority_at == models::opt_text(row.contact_priority_at),
        row@.contacted_at == models::opt_text(row.contacted_at),
        row@.raw_json == row.raw_json@,
{
}

/// The row of a video is read column by column.
pub proof fn law_columns_of_video(row: VideoRow)
    ensures
        row@.creator_handle == row.creator_handle@,
        row@.tiktok_url == row.tiktok_url@,
        row@.post_id == models::opt_text(row.post_id),
        row@.kind == row.kind,
        row@.views == row.views,
        row@.caption == models::opt_text(row.caption),
        row@.published_at == models::opt_text(row.published_at),
        row@.source_url == models::opt_text(row.source_url),
        row@.is_pinned == row.is_pinned,
        row@.is_latest == row.is_latest,
        row@.is_most_viral == row.is_most_viral,
        row@.raw_json == row.raw_json@,
{
}

/// The row of a followed account is read column by column.
pub proof fn law_columns_of_follow(row: FollowRow)
    ensures
        row@.creator_handle == row.creator_handle@,
        row@.follows_handle == row.follows_handle@,
{
}

/// The row of a job is read column by column.
pub proof fn law_columns_of_job(row: QueueRow)
    ensures
        row@.handle == row.handle@,
        row@.discovered_from == models::opt_text(row.discovered_from),
        row@.expected_app_name == models::opt_text(row.expected_app_name),
        row@.found_at == row.found_at@,
        row@.status == row.status,
        row@.attempts == row.attempts,
        row@.manual_priority == row.manual_priority,
        row@.locked_at == models::opt_text(row.locked_at),
        row@.scraped_at == models::opt_text(row.scraped_at),
        row@.last_error == models::opt_text(row.last_error),
{
}

/// The row of a seed is read column by column.
pub proof fn law_columns_of_seed(row: BucketRow)
    ensures
        row@.handle == row.handle@,
        row@.added_at == row.added_at@,
        row@.source == models::opt_text(row.source),
{
}

/// The row of a run is read column by column.
pub proof fn law_columns_of_run(row: RunRow)
    ensures
        row@.id == row.id,
        row@.status == row.status,
        row@.created_at == row.created_at@,
        row@.started_at == models::opt_text(row.started_at),
        row@.finished_at == models::opt_text(row.finished_at),
        row@.seed_count == row.seed_count,
        row@.depth_limit == row.depth_limit,
        row@.processed == row.processed,
        row@.succeeded == row.succeeded,
        row@.failed == row.failed,
        row@.skipped == row.skipped,
        row@.last_error == models::opt_text(row.last_error),
{
}

/// The row of an item of a run is read column by column.
pub proof fn law_columns_of_item(row: ItemRow)
    ensures
        row@.run_id == row.run_id,
        row@.handle == row.handle@,
        row@.depth == row.depth,
        row@.discovered_from == models::opt_text(row.discovered_from),
        row@.found_at == row.found_at@,
        row@.status == row.status,
        row@.attempts == row.attempts,
        row@.locked_at == models::opt_text(row.locked_at),
        row@.scraped_at == models::opt_text(row.scraped_at),
        row@.last_error == models::opt_text(row.last_error),
{
}

/// What a list shows of a creator is read field by field.
pub proof fn law_fields_of_creator_shown(item: CreatorListItem)
    ensures
        item@.handle == item.handle@,
        item@.display_name == models::opt_text(item.display_name),
        item@.contact_name == models::opt_text(item.contact_name),
        item@.promoted_app_name == models::opt_text(item.promoted_app_name),
        item@.email == models::opt_text(item.email),
        item@.country_code == models::opt_text(item.country_code),
        item@.follower_count == item.follower_count,
        item@.following_count == item.following_count,
        item@.avg_views == item.avg_views,
        item@.median_views == item.median_views,
        item@.most_viral_video_url == models::opt_text(item.most_viral_video_url),
        item@.most_viral_video_views == item.most_viral_video_views,
        item@.language_code == item.language_code@,
        item@.scraped_at == item.scraped_at@,
        item@.contact_status == item.contact_status,
        item@.contact_priority_at == models::opt_text(item.contact_priority_at),
        item@.contacted_at == models::opt_text(item.contacted_at),
        item@.videos_count == item.videos_count,
        item@.follows_count == item.follows_count,
{
}

/// What is handed out of an item is read field by field.
pub proof fn law_fields_of_item_taken(item: FrontierJob)
    ensures
        item@.run_id == item.run_id,
        item@.handle == item.handle@,
        item@.depth == item.depth,
        item@.attempts == item.attempts,
{
}

/// A count of states is read field by field.
pub proof fn law_fields_of_states_counted(item: QueueStatusCount)
    ensures
        item@.status == item.status,
        item@.count == item.count,
{
}

/// A post is read field by field.
pub proof fn law_fields_of_post(item: TiktokPost)
    ensures
        item@.id == models::opt_text(item.id),
        item@.url == item.url@,
        item@.caption == models::opt_text(item.caption),
        item@.views == item.views,
        item@.published_at == item.published_at,
        item@.kind == item.kind,
        item@.is_pinned == item.is_pinned,
        item@.source_url == models::opt_text(item.source_url),
        item@.slide_image_urls == crate::search::texts(item.slide_image_urls@),
        item@.visual_image_urls == crate::search::texts(item.visual_image_urls@),
        item@.raw == item.raw@,
{
}

/// A snapshot is read field by field.
pub proof fn law_fields_of_snapshot(item: CreatorSnapshot)
    ensures
        item@.handle == item.handle@,
        item@.display_name == models::opt_text(item.display_name),
        item@.country_code == models::opt_text(item.country_code),
        item@.bio == item.bio@,
        item@.follower_count == item.follower_count,
        item@.following_count == item.following_count,
        item@.following == crate::search::texts(item.following@),
        item@.videos == models::post_views(item.videos@),
        item@.raw == item.raw@,
{
}

/// What was read of posts is read field by field.
pub proof fn law_fields_of_content(item: ExtractedContent)
    ensures
        item@.text == item.text@,
        item@.language_code == item.language_code@,
{
}

/// A classification is read field by field.
pub proof fn law_fields_of_classification(item: AppClassification)
    ensures
        item@.promotes_app == item.promotes_app,
        item@.app_name == models::opt_text(item.app_name),
        item@.is_existing_app == item.is_existing_app,
        item@.existing_app_name == models::opt_text(item.existing_app_name),
        item@.is_new_app == item.is_new_app,
        item@.supporting_post_count == item.supporting_post_count,
        item@.language_code == item.language_code@,
        item@.creator_name == models::opt_text(item.creator_name),
        item@.creator_email == models::opt_text(item.creator_email),
        item@.confidence == item.confidence,
        item@.evidence == item.evidence@,
{
}

/// A finding on a language is read field by field.
pub proof fn law_fields_of_language(item: LanguageClassification)
    ensures
        item@.language_code == item.language_code@,
        item@.confidence == item.confidence,
        item@.evidence == item.evidence@,
{
}

/// What a crawl found is read field by field.
pub proof fn law_fields_of_crawl(item: CrawledCreator)
    ensures
        item@.snapshot == item.snapshot@,
        item@.avg_views == item.avg_views,
        item@.median_views == item.median_views,
        item@.most_viral_video_url == models::opt_text(item.stats.most_viral_video_url),
        item@.most_viral_video_views == item.stats.most_viral_video_views,
        item@.latest_content == item.latest_content@,
        item@.classification == item.classification@,
        item@.confidence_json == item.confidence_json@,
        item@.scraped_at == item.scraped_at,
{
}

/// What a plain list shows of a job is read field by field.
pub proof fn law_fields_of_queue_item(item: QueueItem)
    ensures
        item@.handle == item.handle@,
        item@.discovered_from == models::opt_text(item.discovered_from),
        item@.found_at == item.found_at@,
        item@.status == item.status@,
        item@.attempts == item.attempts,
        item@.last_error == models::opt_text(item.last_error),
{
}

/// The tables are read row by row.
pub proof fn law_rows_of_tables(db: Database, i: int)
    ensures
        db@.apps.len() == db.apps@.len(),
        db@.creators.len() == db.creators@.len(),
        db@.videos.len() == db.videos@.len(),
        db@.follows.len() == db.follows@.len(),
        db@.queue.len() == db.queue@.len(),
        db@.bucket.len() == db.bucket@.len(),
        db@.runs.len() == db.runs@.len(),
        db@.items.len() == db.items@.len(),
        0 <= i < db.apps@.len() ==> db@.apps[i] == db.apps@[i]@,
        0 <= i < db.creators@.len() ==> db@.creators[i] == db.creators@[i]@,
        0 <= i < db.videos@.len() ==> db@.videos[i] == db.videos@[i]@,
        0 <= i < db.follows@.len() ==> db@.follows[i] == db.follows@[i]@,
        0 <= i < db.queue@.len() ==> db@.queue[i] == db.queue@[i]@,
        0 <= i < db.bucket@.len() ==> db@.bucket[i] == db.bucket@[i]@,
        0 <= i < db.runs@.len() ==> db@.runs[i] == db.runs@[i]@,
        0 <= i < db.items@.len() ==> db@.items[i] == db.items@[i]@,
{
}

/// The state of a job is written as one of six words, and read from it again.
pub proof fn law_words_for_jobs(s: JobStatus)
    ensures
        match s {
            JobStatus::Pending => s.text() == "pending"@,
            JobStatus::Retry => s.text() == "retry"@,
            JobStatus::Processing => s.text() == "processing"@,
            JobStatus::Done => s.text() == "done"@,
            JobStatus::Failed => s.text() == "failed"@,
            JobStatus::Excluded => s.text() == "excluded"@,
        },
        JobStatus::of(s.text()) == Some(s),
{
    reveal_strlit("pending");
    reveal_strlit("retry");
    reveal_strlit("processing");
    reveal_strlit("done");
    reveal_strlit("failed");
    reveal_strlit("excluded");
    assert("pending"@.len() == 7 && "retry"@.len() == 5 && "processing"@.len() == 10
        && "done"@.len() == 4 && "failed"@.len() == 6 && "excluded"@.len() == 8);
}

/// The policy of an app is written as one of three words, and read from it again.
pub proof fn law_words_for_policies(p: AppPolicy)
    ensures
        match p {
            AppPolicy::Whitelist => p.text() == "whitelist"@,
            AppPolicy::Neutral => p.text() == "neutral"@,
            AppPolicy::Blacklist => p.text() == "blacklist"@,
        },
        AppPolicy::of(p.text()) == Some(p),
{
    reveal_strlit("whitelist");
    reveal_strlit("neutral");
    reveal_strlit("blacklist");
    assert("whitelist"@[0] == 'w' && "neutral"@[0] == 'n' && "blacklist"@[0] == 'b');
}

/// The state of a contact is written as one of three words, and read from it again.
pub proof fn law_words_for_contacts(s: ContactStatus)
    ensures
        match s {
            ContactStatus::Unselected => s.text() == "unselected"@,
            ContactStatus::ToContact => s.text() == "to_contact"@,
            ContactStatus::Contacted => s.text() == "contacted"@,
        },
        ContactStatus::of(s.text()) == Some(s),
{
    reveal_strlit("unselected");
    reveal_strlit("to_contact");
    reveal_strlit("contacted");
    assert("unselected"@[0] == 'u' && "to_contact"@[0] == 't' && "contacted"@[0] == 'c');
}

/// The state of a run is written as one of four words, and read from it again.
pub proof fn law_words_for_runs(s: RunStatus)
    ensures
        match s {
            RunStatus::Running => s.text() == "running"@,
            RunStatus::Completed => s.text() == "completed"@,
            RunStatus::Stopped => s.text() == "stopped"@,
            RunStatus::Failed => s.text() == "failed"@,
        },
        RunStatus::of(s.text()) == Some(s),
{
    reveal_strlit("running");
    reveal_strlit("completed");
    reveal_strlit("stopped");
    reveal_strlit("failed");
    assert("running"@[0] == 'r' && "completed"@[0] == 'c' && "stopped"@[0] == 's' && "failed"@[0]
        == 'f');
}

/// What the database refuses is told in words.
pub proof fn law_refusals_in_words(e: DbError)
    ensures
        match e {
            DbError::InvalidHandle => e.text() == "invalid TikTok handle"@,
            DbError::InvalidCreatorHandle => e.text() == "invalid creator handle"@,
            DbError::InvalidSourceHandle => e.text() == "invalid source TikTok handle"@,
            DbError::InvalidFrontierSource => e.text() == "invalid frontier source handle"@,
            DbError::EmptyAppName => e.text() == "app name cannot be empty"@,
            DbError::UnknownPolicy => e.text()
                == "app policy must be whitelist, neutral, or blacklist"@,
            DbError::UnknownContactStatus => e.text()
                == "contact status must be unselected, to_contact, or contacted"@,
            DbError::InvalidEmail => e.text() == "email address is not valid"@,
            DbError::CreatorNotFound => e.text() == "creator was not found"@,
            DbError::UnknownViews => e.text() == "failed to upsert creator"@,
            DbError::DuplicateVideo => e.text() == "failed to insert video"@,
            DbError::EmptyBucket => e.text() == "frontier bucket is empty"@,
            DbError::NoRunNumber => e.text() == "failed to create frontier run"@,
            DbError::UnknownRunStatus => e.text() == "invalid frontier run status"@,
            DbError::UnknownRun => e.text() == "failed to enqueue frontier following"@,
        },
{
}

/// A page shows the rows behind those that it skips, as many as it has room for.
pub proof fn law_page_of_rows<V>(all: Seq<V>, limit: nat, offset: nat, i: int)
    ensures
        offset >= all.len() ==> table::page(all, limit, offset).len() == 0,
        offset < all.len() && offset + limit <= all.len() ==> table::page(
            all,
            limit,
            offset,
        ).len() == limit,
        offset < all.len() && offset + limit > all.len() ==> table::page(all, limit, offset).len()
            == all.len() - offset,
        0 <= i < table::page(all, limit, offset).len() ==> table::page(all, limit, offset)[i]
            == all[offset + i],
{
}

/// A missing value goes before every other, a number before every text, and numbers
/// and texts go by size and in their order.
pub proof fn law_order_of_values(x: int, y: int, s: Seq<char>, t: Seq<char>)
    ensures
        ranking::value_before(SortView::Missing, SortView::Number(x)),
        ranking::value_before(SortView::Missing, SortView::Text(s)),
        !ranking::value_before(SortView::Number(x), SortView::Missing),
        !ranking::value_before(SortView::Text(s), SortView::Missing),
        !ranking::value_before(SortView::Missing, SortView::Missing),
        ranking::value_before(SortView::Number(x), SortView::Number(y)) <==> x < y,
        ranking::value_before(SortView::Number(x), SortView::Text(s)),
        !ranking::value_before(SortView::Text(s), SortView::Number(x)),
        ranking::value_before(SortView::Text(s), SortView::Text(t)) <==> order::before(s, t),
{
}

} // verus!
