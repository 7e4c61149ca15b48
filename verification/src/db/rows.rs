//! The tables of the database.

use vstd::prelude::*;
use crate::db::table;
use crate::floating::Real;
use crate::models;
use crate::models::TiktokPostKind;
use crate::text;

verus! {

/// How far a job has come.
#[derive(Debug, Clone, Copy, PartialEq, Eq, Structural)]
pub enum JobStatus {
    /// Nobody has worked on the job.
    Pending,
    /// The job failed, and is tried again.
    Retry,
    /// Somebody is working on the job.
    Processing,
    /// The job is finished.
    Done,
    /// The job failed for good.
    Failed,
    /// The job is not wanted, because of its app.
    Excluded,
}

impl JobStatus {
    /// The text that stands for the status.
    pub open spec fn text(self) -> Seq<char> {
        match self {
            JobStatus::Pending => "pending"@,
            JobStatus::Retry => "retry"@,
            JobStatus::Processing => "processing"@,
            JobStatus::Done => "done"@,
            JobStatus::Failed => "failed"@,
            JobStatus::Excluded => "excluded"@,
        }
    }

    /// The text that stands for the status.
    pub fn name(self) -> (r: &'static str)
        ensures
            r@ == self.text(),
    {
        match self {
            JobStatus::Pending => "pending",
            JobStatus::Retry => "retry",
            JobStatus::Processing => "processing",
            JobStatus::Done => "done",
            JobStatus::Failed => "failed",
            JobStatus::Excluded => "excluded",
        }
    }

    /// The status that the text stands for.
    pub open spec fn of(name: Seq<char>) -> Option<JobStatus> {
        if name == "pending"@ {
            Some(JobStatus::Pending)
        } else if name == "retry"@ {
            Some(JobStatus::Retry)
        } else if name == "processing"@ {
            Some(JobStatus::Processing)
        } else if name == "done"@ {
            Some(JobStatus::Done)
        } else if name == "failed"@ {
            Some(JobStatus::Failed)
        } else if name == "excluded"@ {
            Some(JobStatus::Excluded)
        } else {
            None
        }
    }

    /// The status that the text stands for.
    pub fn from_name(name: &str) -> (r: Option<JobStatus>)
        ensures
            r == JobStatus::of(name@),
    {
        if text::same(name, "pending") {
            Some(JobStatus::Pending)
        } else if text::same(name, "retry") {
            Some(JobStatus::Retry)
        } else if text::same(name, "processing") {
            Some(JobStatus::Processing)
        } else if text::same(name, "done") {
            Some(JobStatus::Done)
        } else if text::same(name, "failed") {
            Some(JobStatus::Failed)
        } else if text::same(name, "excluded") {
            Some(JobStatus::Excluded)
        } else {
            None
        }
    }
}

/// What is done with jobs for an app.
#[derive(Debug, Clone, Copy, PartialEq, Eq, Structural)]
pub enum AppPolicy {
    /// They come first.
    Whitelist,
    /// They come in their turn.
    Neutral,
    /// They are left out.
    Blacklist,
}

impl AppPolicy {
    /// The text that stands for the policy.
    pub open spec fn text(self) -> Seq<char> {
        match self {
            AppPolicy::Whitelist => "whitelist"@,
            AppPolicy::Neutral => "neutral"@,
            AppPolicy::Blacklist => "blacklist"@,
        }
    }

    /// The text that stands for the policy.
    pub fn name(self) -> (r: &'static str)
        ensures
            r@ == self.text(),
    {
        match self {
            AppPolicy::Whitelist => "whitelist",
            AppPolicy::Neutral => "neutral",
            AppPolicy::Blacklist => "blacklist",
        }
    }

    /// The policy that the text stands for.
    pub open spec fn of(name: Seq<char>) -> Option<AppPolicy> {
        if name == "whitelist"@ {
            Some(AppPolicy::Whitelist)
        } else if name == "neutral"@ {
            Some(AppPolicy::Neutral)
        } else if name == "blacklist"@ {
            Some(AppPolicy::Blacklist)
        } else {
            None
        }
    }

    /// The policy that the text stands for.
    pub fn from_name(name: &str) -> (r: Option<AppPolicy>)
        ensures
            r == AppPolicy::of(name@),
    {
        if text::same(name, "whitelist") {
            Some(AppPolicy::Whitelist)
        } else if text::same(name, "neutral") {
            Some(AppPolicy::Neutral)
        } else if text::same(name, "blacklist") {
            Some(AppPolicy::Blacklist)
        } else {
            None
        }
    }
}

/// Whether a creator is written to.
#[derive(Debug, Clone, Copy, PartialEq, Eq, Structural)]
pub enum ContactStatus {
    Unselected,
    ToContact,
    Contacted,
}

impl ContactStatus {
    /// The text that stands for the status.
    pub open spec fn text(self) -> Seq<char> {
        match self {
            ContactStatus::Unselected => "unselected"@,
            ContactStatus::ToContact => "to_contact"@,
            ContactStatus::Contacted => "contacted"@,
        }
    }

    /// The text that stands for the status.
    pub fn name(self) -> (r: &'static str)
        ensures
            r@ == self.text(),
    {
        match self {
            ContactStatus::Unselected => "unselected",
            ContactStatus::ToContact => "to_contact",
            ContactStatus::Contacted => "contacted",
        }
    }

    /// The status that the text stands for.
    pub open spec fn of(name: Seq<char>) -> Option<ContactStatus> {
        if name == "unselected"@ {
            Some(ContactStatus::Unselected)
        } else if name == "to_contact"@ {
            Some(ContactStatus::ToContact)
        } else if name == "contacted"@ {
            Some(ContactStatus::Contacted)
        } else {
            None
        }
    }

    /// The status that the text stands for.
    pub fn from_name(name: &str) -> (r: Option<ContactStatus>)
        ensures
            r == ContactStatus::of(name@),
    {
        if text::same(name, "unselected") {
            Some(ContactStatus::Unselected)
        } else if text::same(name, "to_contact") {
            Some(ContactStatus::ToContact)
        } else if text::same(name, "contacted") {
            Some(ContactStatus::Contacted)
        } else {
            None
        }
    }
}

/// How far a frontier run has come.
#[derive(Debug, Clone, Copy, PartialEq, Eq, Structural)]
pub enum RunStatus {
    Running,
    Completed,
    Stopped,
    Failed,
}

impl RunStatus {
    /// The text that stands for the status.
    pub open spec fn text(self) -> Seq<char> {
        match self {
            RunStatus::Running => "running"@,
            RunStatus::Completed => "completed"@,
            RunStatus::Stopped => "stopped"@,
            RunStatus::Failed => "failed"@,
        }
    }

    /// The text that stands for the status.
    pub fn name(self) -> (r: &'static str)
        ensures
            r@ == self.text(),
    {
        match self {
            RunStatus::Running => "running",
            RunStatus::Completed => "completed",
            RunStatus::Stopped => "stopped",
            RunStatus::Failed => "failed",
        }
    }

    /// The status that the text stands for.
    pub open spec fn of(name: Seq<char>) -> Option<RunStatus> {
        if name == "running"@ {
            Some(RunStatus::Running)
        } else if name == "completed"@ {
            Some(RunStatus::Completed)
        } else if name == "stopped"@ {
            Some(RunStatus::Stopped)
        } else if name == "failed"@ {
            Some(RunStatus::Failed)
        } else {
            None
        }
    }

    /// The status that the text stands for.
    pub fn from_name(name: &str) -> (r: Option<RunStatus>)
        ensures
            r == RunStatus::of(name@),
    {
        if text::same(name, "running") {
            Some(RunStatus::Running)
        } else if text::same(name, "completed") {
            Some(RunStatus::Completed)
        } else if text::same(name, "stopped") {
            Some(RunStatus::Stopped)
        } else if text::same(name, "failed") {
            Some(RunStatus::Failed)
        } else {
            None
        }
    }
}

/// An app that creators promote.
pub struct AppRow {
    pub name: String,
    pub first_seen_at: String,
    pub last_seen_at: String,
    pub policy: AppPolicy,
}

/// The mathematical reading of a row of this table.
pub struct AppView {
    pub name: Seq<char>,
    pub first_seen_at: Seq<char>,
    pub last_seen_at: Seq<char>,
    pub policy: AppPolicy,
}

impl View for AppRow {
    type V = AppView;

    open spec fn view(&self) -> AppView {
        AppView {
            name: self.name@,
            first_seen_at: self.first_seen_at@,
            last_seen_at: self.last_seen_at@,
            policy: self.policy,
        }
    }
}

/// A creator that has been crawled.
pub struct CreatorRow {
    pub handle: String,
    pub display_name: Option<String>,
    pub contact_name: Option<String>,
    pub bio: String,
    pub country_code: Option<String>,
    pub country_checked_at: Option<String>,
    pub country_error: Option<String>,
    pub follower_count: Option<i64>,
    pub following_count: Option<i64>,
    pub avg_views: Real,
    pub median_views: Real,
    pub most_viral_video_url: Option<String>,
    pub most_viral_video_views: Option<i64>,
    pub latest_content_text: String,
    pub promoted_app_name: Option<String>,
    pub email: Option<String>,
    pub language_code: String,
    pub scraped_at: String,
    pub contact_status: ContactStatus,
    pub contact_priority_at: Option<String>,
    pub contacted_at: Option<String>,
    pub raw_json: String,
}

/// The mathematical reading of a row of this table.
pub struct CreatorView {
    pub handle: Seq<char>,
    pub display_name: Option<Seq<char>>,
    pub contact_name: Option<Seq<char>>,
    pub bio: Seq<char>,
    pub country_code: Option<Seq<char>>,
    pub country_checked_at: Option<Seq<char>>,
    pub country_error: Option<Seq<char>>,
    pub follower_count: Option<i64>,
    pub following_count: Option<i64>,
    pub avg_views: Real,
    pub median_views: Real,
    pub most_viral_video_url: Option<Seq<char>>,
    pub most_viral_video_views: Option<i64>,
    pub latest_content_text: Seq<char>,
    pub promoted_app_name: Option<Seq<char>>,
    pub email: Option<Seq<char>>,
    pub language_code: Seq<char>,
    pub scraped_at: Seq<char>,
    pub contact_status: ContactStatus,
    pub contact_priority_at: Option<Seq<char>>,
    pub contacted_at: Option<Seq<char>>,
    pub raw_json: Seq<char>,
}

impl View for CreatorRow {
    type V = CreatorView;

    open spec fn view(&self) -> CreatorView {
        CreatorView {
            handle: self.handle@,
            display_name: models::opt_text(self.display_name),
            contact_name: models::opt_text(self.contact_name),
            bio: self.bio@,
            country_code: models::opt_text(self.country_code),
            country_checked_at: models::opt_text(self.country_checked_at),
            country_error: models::opt_text(self.country_error),
            follower_count: self.follower_count,
            following_count: self.following_count,
            avg_views: self.avg_views,
            median_views: self.median_views,
            most_viral_video_url: models::opt_text(self.most_viral_video_url),
            most_viral_video_views: self.most_viral_video_views,
            latest_content_text: self.latest_content_text@,
            promoted_app_name: models::opt_text(self.promoted_app_name),
            email: models::opt_text(self.email),
            language_code: self.language_code@,
            scraped_at: self.scraped_at@,
            contact_status: self.contact_status,
            contact_priority_at: models::opt_text(self.contact_priority_at),
            contacted_at: models::opt_text(self.contacted_at),
            raw_json: self.raw_json@,
        }
    }
}

/// A post of a creator.
pub struct VideoRow {
    pub creator_handle: String,
    pub tiktok_url: String,
    pub post_id: Option<String>,
    pub kind: TiktokPostKind,
    pub views: i64,
    pub caption: Option<String>,
    pub published_at: Option<String>,
    pub source_url: Option<String>,
    pub is_pinned: bool,
    pub is_latest: bool,
    pub is_most_viral: bool,
    pub raw_json: String,
}

/// The mathematical reading of a row of this table.
pub struct VideoView {
    pub creator_handle: Seq<char>,
    pub tiktok_url: Seq<char>,
    pub post_id: Option<Seq<char>>,
    pub kind: TiktokPostKind,
    pub views: i64,
    pub caption: Option<Seq<char>>,
    pub published_at: Option<Seq<char>>,
    pub source_url: Option<Seq<char>>,
    pub is_pinned: bool,
    pub is_latest: bool,
    pub is_most_viral: bool,
    pub raw_json: Seq<char>,
}

impl View for VideoRow {
    type V = VideoView;

    open spec fn view(&self) -> VideoView {
        VideoView {
            creator_handle: self.creator_handle@,
            tiktok_url: self.tiktok_url@,
            post_id: models::opt_text(self.post_id),
            kind: self.kind,
            views: self.views,
            caption: models::opt_text(self.caption),
            published_at: models::opt_text(self.published_at),
            source_url: models::opt_text(self.source_url),
            is_pinned: self.is_pinned,
            is_latest: self.is_latest,
            is_most_viral: self.is_most_viral,
            raw_json: self.raw_json@,
        }
    }
}

/// One creator follows another.
pub struct FollowRow {
    pub creator_handle: String,
    pub follows_handle: String,
}

/// The mathematical reading of a row of this table.
pub struct FollowView {
    pub creator_handle: Seq<char>,
    pub follows_handle: Seq<char>,
}

impl View for FollowRow {
    type V = FollowView;

    open spec fn view(&self) -> FollowView {
        FollowView {
            creator_handle: self.creator_handle@,
            follows_handle: self.follows_handle@,
        }
    }
}

/// A creator that is to be crawled.
pub struct QueueRow {
    pub handle: String,
    pub discovered_from: Option<String>,
    pub expected_app_name: Option<String>,
    pub found_at: String,
    pub status: JobStatus,
    pub attempts: u32,
    pub manual_priority: bool,
    pub locked_at: Option<String>,
    pub scraped_at: Option<String>,
    pub last_error: Option<String>,
}

/// The mathematical reading of a row of this table.
pub struct QueueView {
    pub handle: Seq<char>,
    pub discovered_from: Option<Seq<char>>,
    pub expected_app_name: Option<Seq<char>>,
    pub found_at: Seq<char>,
    pub status: JobStatus,
    pub attempts: u32,
    pub manual_priority: bool,
    pub locked_at: Option<Seq<char>>,
    pub scraped_at: Option<Seq<char>>,
    pub last_error: Option<Seq<char>>,
}

impl View for QueueRow {
    type V = QueueView;

    open spec fn view(&self) -> QueueView {
        QueueView {
            handle: self.handle@,
            discovered_from: models::opt_text(self.discovered_from),
            expected_app_name: models::opt_text(self.expected_app_name),
            found_at: self.found_at@,
            status: self.status,
            attempts: self.attempts,
            manual_priority: self.manual_priority,
            locked_at: models::opt_text(self.locked_at),
            scraped_at: models::opt_text(self.scraped_at),
            last_error: models::opt_text(self.last_error),
        }
    }
}

/// A creator that the next frontier run begins with.
pub struct BucketRow {
    pub handle: String,
    pub added_at: String,
    pub source: Option<String>,
}

/// The mathematical reading of a row of this table.
pub struct BucketView {
    pub handle: Seq<char>,
    pub added_at: Seq<char>,
    pub source: Option<Seq<char>>,
}

impl View for BucketRow {
    type V = BucketView;

    open spec fn view(&self) -> BucketView {
        BucketView {
            handle: self.handle@,
            added_at: self.added_at@,
            source: models::opt_text(self.source),
        }
    }
}

/// A frontier run.
pub struct RunRow {
    pub id: i64,
    pub status: RunStatus,
    pub created_at: String,
    pub started_at: Option<String>,
    pub finished_at: Option<String>,
    pub seed_count: usize,
    pub depth_limit: u8,
    pub processed: usize,
    pub succeeded: usize,
    pub failed: usize,
    pub skipped: usize,
    pub last_error: Option<String>,
}

/// The mathematical reading of a row of this table.
pub struct RunView {
    pub id: i64,
    pub status: RunStatus,
    pub created_at: Seq<char>,
    pub started_at: Option<Seq<char>>,
    pub finished_at: Option<Seq<char>>,
    pub seed_count: usize,
    pub depth_limit: u8,
    pub processed: usize,
    pub succeeded: usize,
    pub failed: usize,
    pub skipped: usize,
    pub last_error: Option<Seq<char>>,
}

impl View for RunRow {
    type V = RunView;

    open spec fn view(&self) -> RunView {
        RunView {
            id: self.id,
            status: self.status,
            created_at: self.created_at@,
            started_at: models::opt_text(self.started_at),
            finished_at: models::opt_text(self.finished_at),
            seed_count: self.seed_count,
            depth_limit: self.depth_limit,
            processed: self.processed,
            succeeded: self.succeeded,
            failed: self.failed,
            skipped: self.skipped,
            last_error: models::opt_text(self.last_error),
        }
    }
}

/// A creator that a frontier run crawls.
pub struct ItemRow {
    pub run_id: i64,
    pub handle: String,
    pub depth: u8,
    pub discovered_from: Option<String>,
    pub found_at: String,
    pub status: JobStatus,
    pub attempts: u32,
    pub locked_at: Option<String>,
    pub scraped_at: Option<String>,
    pub last_error: Option<String>,
}

/// The mathematical reading of a row of this table.
pub struct ItemView {
    pub run_id: i64,
    pub handle: Seq<char>,
    pub depth: u8,
    pub discovered_from: Option<Seq<char>>,
    pub found_at: Seq<char>,
    pub status: JobStatus,
    pub attempts: u32,
    pub locked_at: Option<Seq<char>>,
    pub scraped_at: Option<Seq<char>>,
    pub last_error: Option<Seq<char>>,
}

impl View for ItemRow {
    type V = ItemView;

    open spec fn view(&self) -> ItemView {
        ItemView {
            run_id: self.run_id,
            handle: self.handle@,
            depth: self.depth,
            discovered_from: models::opt_text(self.discovered_from),
            found_at: self.found_at@,
            status: self.status,
            attempts: self.attempts,
            locked_at: models::opt_text(self.locked_at),
            scraped_at: models::opt_text(self.scraped_at),
            last_error: models::opt_text(self.last_error),
        }
    }
}

/// All tables. Rows stand in the order in which they were put in.
pub struct Database {
    pub apps: Vec<AppRow>,
    pub creators: Vec<CreatorRow>,
    pub videos: Vec<VideoRow>,
    pub follows: Vec<FollowRow>,
    pub queue: Vec<QueueRow>,
    pub bucket: Vec<BucketRow>,
    pub runs: Vec<RunRow>,
    pub items: Vec<ItemRow>,
}

/// The mathematical reading of a `Database`.
pub struct DatabaseView {
    pub apps: Seq<AppView>,
    pub creators: Seq<CreatorView>,
    pub videos: Seq<VideoView>,
    pub follows: Seq<FollowView>,
    pub queue: Seq<QueueView>,
    pub bucket: Seq<BucketView>,
    pub runs: Seq<RunView>,
    pub items: Seq<ItemView>,
}

impl View for Database {
    type V = DatabaseView;

    open spec fn view(&self) -> DatabaseView {
        DatabaseView {
            apps: table::views(self.apps@),
            creators: table::views(self.creators@),
            videos: table::views(self.videos@),
            follows: table::views(self.follows@),
            queue: table::views(self.queue@),
            bucket: table::views(self.bucket@),
            runs: table::views(self.runs@),
            items: table::views(self.items@),
        }
    }
}

// ---------------------------------------------------------------------------
// Validity
// ---------------------------------------------------------------------------
/// The name of an app.
pub open spec fn app_key() -> spec_fn(AppView) -> Seq<char> {
    |v: AppView| v.name
}

/// The handle of a creator.
pub open spec fn creator_key() -> spec_fn(CreatorView) -> Seq<char> {
    |v: CreatorView| v.handle
}

/// The creator and the address of a post.
pub open spec fn video_key() -> spec_fn(VideoView) -> (Seq<char>, Seq<char>) {
    |v: VideoView| (v.creator_handle, v.tiktok_url)
}

/// The two creators.
pub open spec fn follow_key() -> spec_fn(FollowView) -> (Seq<char>, Seq<char>) {
    |v: FollowView| (v.creator_handle, v.follows_handle)
}

/// The handle of a job.
pub open spec fn job_key() -> spec_fn(QueueView) -> Seq<char> {
    |v: QueueView| v.handle
}

/// The handle of a seed.
pub open spec fn seed_key() -> spec_fn(BucketView) -> Seq<char> {
    |v: BucketView| v.handle
}

/// The number of a run.
pub open spec fn run_key() -> spec_fn(RunView) -> i64 {
    |v: RunView| v.id
}

/// The run and the handle of an item.
pub open spec fn item_key() -> spec_fn(ItemView) -> (i64, Seq<char>) {
    |v: ItemView| (v.run_id, v.handle)
}

pub open spec fn app_is(name: Seq<char>) -> spec_fn(AppView) -> bool {
    |v: AppView| v.name == name
}

pub open spec fn creator_is(handle: Seq<char>) -> spec_fn(CreatorView) -> bool {
    |v: CreatorView| v.handle == handle
}

pub open spec fn job_is(handle: Seq<char>) -> spec_fn(QueueView) -> bool {
    |v: QueueView| v.handle == handle
}

pub open spec fn seed_is(handle: Seq<char>) -> spec_fn(BucketView) -> bool {
    |v: BucketView| v.handle == handle
}

pub open spec fn run_is(id: i64) -> spec_fn(RunView) -> bool {
    |v: RunView| v.id == id
}

pub open spec fn item_is(run_id: i64, handle: Seq<char>) -> spec_fn(ItemView) -> bool {
    |v: ItemView| v.run_id == run_id && v.handle == handle
}

/// The app is in the table.
pub open spec fn has_app(apps: Seq<AppView>, name: Seq<char>) -> bool {
    table::some_row(apps, app_is(name))
}

/// The creator is in the table.
pub open spec fn has_creator(creators: Seq<CreatorView>, handle: Seq<char>) -> bool {
    table::some_row(creators, creator_is(handle))
}

/// The handle is in the queue.
pub open spec fn in_queue(queue: Seq<QueueView>, handle: Seq<char>) -> bool {
    table::some_row(queue, job_is(handle))
}

/// The run is in the table.
pub open spec fn has_run(runs: Seq<RunView>, id: i64) -> bool {
    table::some_row(runs, run_is(id))
}

/// The app with the given name.
pub struct AppIs<'a> {
    pub name: &'a str,
}

impl<'a> table::RowTest<AppRow> for AppIs<'a> {
    open spec fn wanted(&self) -> spec_fn(AppView) -> bool {
        app_is(self.name@)
    }

    fn test(&self, row: &AppRow) -> (r: bool) {
        text::same(row.name.as_str(), self.name)
    }
}

/// The creator with the given handle.
pub struct CreatorIs<'a> {
    pub handle: &'a str,
}

impl<'a> table::RowTest<CreatorRow> for CreatorIs<'a> {
    open spec fn wanted(&self) -> spec_fn(CreatorView) -> bool {
        creator_is(self.handle@)
    }

    fn test(&self, row: &CreatorRow) -> (r: bool) {
        text::same(row.handle.as_str(), self.handle)
    }
}

/// The job with the given handle.
pub struct JobIs<'a> {
    pub handle: &'a str,
}

impl<'a> table::RowTest<QueueRow> for JobIs<'a> {
    open spec fn wanted(&self) -> spec_fn(QueueView) -> bool {
        job_is(self.handle@)
    }

    fn test(&self, row: &QueueRow) -> (r: bool) {
        text::same(row.handle.as_str(), self.handle)
    }
}

/// The seed with the given handle.
pub struct SeedIs<'a> {
    pub handle: &'a str,
}

impl<'a> table::RowTest<BucketRow> for SeedIs<'a> {
    open spec fn wanted(&self) -> spec_fn(BucketView) -> bool {
        seed_is(self.handle@)
    }

    fn test(&self, row: &BucketRow) -> (r: bool) {
        text::same(row.handle.as_str(), self.handle)
    }
}

/// The run with the given number.
pub struct RunIs {
    pub id: i64,
}

impl table::RowTest<RunRow> for RunIs {
    open spec fn wanted(&self) -> spec_fn(RunView) -> bool {
        run_is(self.id)
    }

    fn test(&self, row: &RunRow) -> (r: bool) {
        row.id == self.id
    }
}

/// The item of the given run with the given handle.
pub struct ItemIs<'a> {
    pub run_id: i64,
    pub handle: &'a str,
}

impl<'a> table::RowTest<ItemRow> for ItemIs<'a> {
    open spec fn wanted(&self) -> spec_fn(ItemView) -> bool {
        item_is(self.run_id, self.handle@)
    }

    fn test(&self, row: &ItemRow) -> (r: bool) {
        row.run_id == self.run_id && text::same(row.handle.as_str(), self.handle)
    }
}

/// Every app that a creator promotes is in the table of apps.
pub open spec fn apps_known(db: DatabaseView) -> bool {
    forall|i: int|
        0 <= i < db.creators.len() ==> match (#[trigger] db.creators[i]).promoted_app_name {
            Some(name) => has_app(db.apps, name),
            None => true,
        }
}

/// Every item belongs to a run.
pub open spec fn runs_known(db: DatabaseView) -> bool {
    forall|i: int| 0 <= i < db.items.len() ==> has_run(db.runs, (#[trigger] db.items[i]).run_id)
}

/// Every post and every followed account belongs to a creator.
pub open spec fn owners_known(db: DatabaseView) -> bool {
    &&& forall|i: int|
        0 <= i < db.videos.len() ==> has_creator(
            db.creators,
            (#[trigger] db.videos[i]).creator_handle,
        )
    &&& forall|i: int|
        0 <= i < db.follows.len() ==> has_creator(
            db.creators,
            (#[trigger] db.follows[i]).creator_handle,
        )
}

impl DatabaseView {
    /// What holds of every database: keys are unique, and what a row refers to
    /// is there.
    pub open spec fn wf(self) -> bool {
        &&& table::distinct_by(self.apps, app_key())
        &&& table::distinct_by(self.creators, creator_key())
        &&& table::distinct_by(self.videos, video_key())
        &&& table::distinct_by(self.follows, follow_key())
        &&& table::distinct_by(self.queue, job_key())
        &&& table::distinct_by(self.bucket, seed_key())
        &&& table::distinct_by(self.runs, run_key())
        &&& table::distinct_by(self.items, item_key())
        &&& apps_known(self)
        &&& runs_known(self)
        &&& owners_known(self)
    }
}

impl Database {
    /// A database without rows.
    pub fn new() -> (r: Database)
        ensures
            r@.wf(),
            r.apps@.len() == 0,
            r.creators@.len() == 0,
            r.videos@.len() == 0,
            r.follows@.len() == 0,
            r.queue@.len() == 0,
            r.bucket@.len() == 0,
            r.runs@.len() == 0,
            r.items@.len() == 0,
    {
        Database {
            apps: Vec::new(),
            creators: Vec::new(),
            videos: Vec::new(),
            follows: Vec::new(),
            queue: Vec::new(),
            bucket: Vec::new(),
            runs: Vec::new(),
            items: Vec::new(),
        }
    }
}

} // verus!
