//! What the database shows.

use vstd::prelude::*;
use crate::db::rows::{AppPolicy, ContactStatus, JobStatus, RunStatus};
use crate::floating::Real;
use crate::models;

verus! {

/// How many jobs have a status.
pub struct QueueStatusCount {
    pub status: JobStatus,
    pub count: usize,
}

/// The mathematical reading of a `QueueStatusCount`.
pub struct StatusCountView {
    pub status: JobStatus,
    pub count: usize,
}

impl View for QueueStatusCount {
    type V = StatusCountView;

    open spec fn view(&self) -> StatusCountView {
        StatusCountView {
            status: self.status,
            count: self.count,
        }
    }
}

/// A job with what is known of it.
pub struct QueueViewItem {
    pub handle: String,
    pub discovered_from: Option<String>,
    pub found_at: String,
    pub status: JobStatus,
    pub attempts: u32,
    pub last_error: Option<String>,
    pub expected_app_name: Option<String>,
    pub inferred_app_name: Option<String>,
    pub inferred_language_code: Option<String>,
    pub inferred_country_code: Option<String>,
    pub app_policy: AppPolicy,
}

/// The mathematical reading of a `QueueViewItem`.
pub struct QueueShown {
    pub handle: Seq<char>,
    pub discovered_from: Option<Seq<char>>,
    pub found_at: Seq<char>,
    pub status: JobStatus,
    pub attempts: u32,
    pub last_error: Option<Seq<char>>,
    pub expected_app_name: Option<Seq<char>>,
    pub inferred_app_name: Option<Seq<char>>,
    pub inferred_language_code: Option<Seq<char>>,
    pub inferred_country_code: Option<Seq<char>>,
    pub app_policy: AppPolicy,
}

impl View for QueueViewItem {
    type V = QueueShown;

    open spec fn view(&self) -> QueueShown {
        QueueShown {
            handle: self.handle@,
            discovered_from: models::opt_text(self.discovered_from),
            found_at: self.found_at@,
            status: self.status,
            attempts: self.attempts,
            last_error: models::opt_text(self.last_error),
            expected_app_name: models::opt_text(self.expected_app_name),
            inferred_app_name: models::opt_text(self.inferred_app_name),
            inferred_language_code: models::opt_text(self.inferred_language_code),
            inferred_country_code: models::opt_text(self.inferred_country_code),
            app_policy: self.app_policy,
        }
    }
}

/// The jobs that were found at one creator, together.
pub struct QueueSourceViewItem {
    pub source_handle: String,
    pub item_count: usize,
    pub removable_count: usize,
    pub oldest_found_at: String,
    pub country_code: Option<String>,
    pub app_name: Option<String>,
    pub app_policy: AppPolicy,
}

/// The mathematical reading of a `QueueSourceViewItem`.
pub struct SourceShown {
    pub source_handle: Seq<char>,
    pub item_count: usize,
    pub removable_count: usize,
    pub oldest_found_at: Seq<char>,
    pub country_code: Option<Seq<char>>,
    pub app_name: Option<Seq<char>>,
    pub app_policy: AppPolicy,
}

impl View for QueueSourceViewItem {
    type V = SourceShown;

    open spec fn view(&self) -> SourceShown {
        SourceShown {
            source_handle: self.source_handle@,
            item_count: self.item_count,
            removable_count: self.removable_count,
            oldest_found_at: self.oldest_found_at@,
            country_code: models::opt_text(self.country_code),
            app_name: models::opt_text(self.app_name),
            app_policy: self.app_policy,
        }
    }
}

/// An app, and how many creators promote it.
pub struct AppSummary {
    pub name: String,
    pub creator_count: usize,
    pub policy: AppPolicy,
}

/// The mathematical reading of a `AppSummary`.
pub struct AppShown {
    pub name: Seq<char>,
    pub creator_count: usize,
    pub policy: AppPolicy,
}

impl View for AppSummary {
    type V = AppShown;

    open spec fn view(&self) -> AppShown {
        AppShown {
            name: self.name@,
            creator_count: self.creator_count,
            policy: self.policy,
        }
    }
}

/// A creator, as lists show it.
pub struct CreatorListItem {
    pub handle: String,
    pub display_name: Option<String>,
    pub contact_name: Option<String>,
    pub promoted_app_name: Option<String>,
    pub email: Option<String>,
    pub country_code: Option<String>,
    pub follower_count: Option<i64>,
    pub following_count: Option<i64>,
    pub avg_views: Real,
    pub median_views: Real,
    pub most_viral_video_url: Option<String>,
    pub most_viral_video_views: Option<i64>,
    pub language_code: String,
    pub scraped_at: String,
    pub contact_status: ContactStatus,
    pub contact_priority_at: Option<String>,
    pub contacted_at: Option<String>,
    pub videos_count: usize,
    pub follows_count: usize,
}

/// The mathematical reading of a `CreatorListItem`.
pub struct CreatorShown {
    pub handle: Seq<char>,
    pub display_name: Option<Seq<char>>,
    pub contact_name: Option<Seq<char>>,
    pub promoted_app_name: Option<Seq<char>>,
    pub email: Option<Seq<char>>,
    pub country_code: Option<Seq<char>>,
    pub follower_count: Option<i64>,
    pub following_count: Option<i64>,
    pub avg_views: Real,
    pub median_views: Real,
    pub most_viral_video_url: Option<Seq<char>>,
    pub most_viral_video_views: Option<i64>,
    pub language_code: Seq<char>,
    pub scraped_at: Seq<char>,
    pub contact_status: ContactStatus,
    pub contact_priority_at: Option<Seq<char>>,
    pub contacted_at: Option<Seq<char>>,
    pub videos_count: usize,
    pub follows_count: usize,
}

impl View for CreatorListItem {
    type V = CreatorShown;

    open spec fn view(&self) -> CreatorShown {
        CreatorShown {
            handle: self.handle@,
            display_name: models::opt_text(self.display_name),
            contact_name: models::opt_text(self.contact_name),
            promoted_app_name: models::opt_text(self.promoted_app_name),
            email: models::opt_text(self.email),
            country_code: models::opt_text(self.country_code),
            follower_count: self.follower_count,
            following_count: self.following_count,
            avg_views: self.avg_views,
            median_views: self.median_views,
            most_viral_video_url: models::opt_text(self.most_viral_video_url),
            most_viral_video_views: self.most_viral_video_views,
            language_code: self.language_code@,
            scraped_at: self.scraped_at@,
            contact_status: self.contact_status,
            contact_priority_at: models::opt_text(self.contact_priority_at),
            contacted_at: models::opt_text(self.contacted_at),
            videos_count: self.videos_count,
            follows_count: self.follows_count,
        }
    }
}

/// A creator whose language is to be found again.
pub struct LanguageReviewCreator {
    pub handle: String,
    pub bio: String,
    pub latest_content_text: String,
    pub language_code: String,
}

/// The mathematical reading of a `LanguageReviewCreator`.
pub struct ReviewShown {
    pub handle: Seq<char>,
    pub bio: Seq<char>,
    pub latest_content_text: Seq<char>,
    pub language_code: Seq<char>,
}

impl View for LanguageReviewCreator {
    type V = ReviewShown;

    open spec fn view(&self) -> ReviewShown {
        ReviewShown {
            handle: self.handle@,
            bio: self.bio@,
            latest_content_text: self.latest_content_text@,
            language_code: self.language_code@,
        }
    }
}

/// A seed of frontier runs, with what is known of it.
pub struct FrontierBucketItem {
    pub handle: String,
    pub added_at: String,
    pub source: Option<String>,
    pub promoted_app_name: Option<String>,
    pub language_code: Option<String>,
    pub follower_count: Option<i64>,
    pub following_count: Option<i64>,
    pub follows_count: usize,
}

/// The mathematical reading of a `FrontierBucketItem`.
pub struct SeedShown {
    pub handle: Seq<char>,
    pub added_at: Seq<char>,
    pub source: Option<Seq<char>>,
    pub promoted_app_name: Option<Seq<char>>,
    pub language_code: Option<Seq<char>>,
    pub follower_count: Option<i64>,
    pub following_count: Option<i64>,
    pub follows_count: usize,
}

impl View for FrontierBucketItem {
    type V = SeedShown;

    open spec fn view(&self) -> SeedShown {
        SeedShown {
            handle: self.handle@,
            added_at: self.added_at@,
            source: models::opt_text(self.source),
            promoted_app_name: models::opt_text(self.promoted_app_name),
            language_code: models::opt_text(self.language_code),
            follower_count: self.follower_count,
            following_count: self.following_count,
            follows_count: self.follows_count,
        }
    }
}

/// A frontier run.
pub struct FrontierRunRecord {
    pub id: i64,
    pub status: RunStatus,
    pub created_at: String,
    pub started_at: Option<String>,
    pub finished_at: Option<String>,
    pub seed_count: usize,
    pub depth_limit: u8,
    pub processed: usize,
    pub succeeded: usize,
    pub failed: usize,
    pub skipped: usize,
    pub last_error: Option<String>,
}

/// The mathematical reading of a `FrontierRunRecord`.
pub struct RunShown {
    pub id: i64,
    pub status: RunStatus,
    pub created_at: Seq<char>,
    pub started_at: Option<Seq<char>>,
    pub finished_at: Option<Seq<char>>,
    pub seed_count: usize,
    pub depth_limit: u8,
    pub processed: usize,
    pub succeeded: usize,
    pub failed: usize,
    pub skipped: usize,
    pub last_error: Option<Seq<char>>,
}

impl View for FrontierRunRecord {
    type V = RunShown;

    open spec fn view(&self) -> RunShown {
        RunShown {
            id: self.id,
            status: self.status,
            created_at: self.created_at@,
            started_at: models::opt_text(self.started_at),
            finished_at: models::opt_text(self.finished_at),
            seed_count: self.seed_count,
            depth_limit: self.depth_limit,
            processed: self.processed,
            succeeded: self.succeeded,
            failed: self.failed,
            skipped: self.skipped,
            last_error: models::opt_text(self.last_error),
        }
    }
}

/// An item of a frontier run, with what is known of it.
pub struct FrontierRunItemView {
    pub run_id: i64,
    pub handle: String,
    pub depth: u8,
    pub discovered_from: Option<String>,
    pub found_at: String,
    pub status: JobStatus,
    pub attempts: u32,
    pub last_error: Option<String>,
    pub scraped_at: Option<String>,
    pub promoted_app_name: Option<String>,
    pub language_code: Option<String>,
    pub follower_count: Option<i64>,
    pub following_count: Option<i64>,
    pub follows_count: usize,
}

/// The mathematical reading of a `FrontierRunItemView`.
pub struct RunItemShown {
    pub run_id: i64,
    pub handle: Seq<char>,
    pub depth: u8,
    pub discovered_from: Option<Seq<char>>,
    pub found_at: Seq<char>,
    pub status: JobStatus,
    pub attempts: u32,
    pub last_error: Option<Seq<char>>,
    pub scraped_at: Option<Seq<char>>,
    pub promoted_app_name: Option<Seq<char>>,
    pub language_code: Option<Seq<char>>,
    pub follower_count: Option<i64>,
    pub following_count: Option<i64>,
    pub follows_count: usize,
}

impl View for FrontierRunItemView {
    type V = RunItemShown;

    open spec fn view(&self) -> RunItemShown {
        RunItemShown {
            run_id: self.run_id,
            handle: self.handle@,
            depth: self.depth,
            discovered_from: models::opt_text(self.discovered_from),
            found_at: self.found_at@,
            status: self.status,
            attempts: self.attempts,
            last_error: models::opt_text(self.last_error),
            scraped_at: models::opt_text(self.scraped_at),
            promoted_app_name: models::opt_text(self.promoted_app_name),
            language_code: models::opt_text(self.language_code),
            follower_count: self.follower_count,
            following_count: self.following_count,
            follows_count: self.follows_count,
        }
    }
}

/// An item of a frontier run that is to be crawled next.
pub struct FrontierJob {
    pub run_id: i64,
    pub handle: String,
    pub depth: u8,
    pub attempts: u32,
}

/// The mathematical reading of a `FrontierJob`.
pub struct FrontierJobView {
    pub run_id: i64,
    pub handle: Seq<char>,
    pub depth: u8,
    pub attempts: u32,
}

impl View for FrontierJob {
    type V = FrontierJobView;

    open spec fn view(&self) -> FrontierJobView {
        FrontierJobView {
            run_id: self.run_id,
            handle: self.handle@,
            depth: self.depth,
            attempts: self.attempts,
        }
    }
}

} // verus!
