//! What holds of jobs, creators and frontier runs.

use creatorprogram_crawler::crawler::jobs::{
    begin_crawl, crawled_creator, finish_crawl, finish_frontier_job, frontier_force,
    frontier_options, record_country_reply, CountryBackfillSummary, CountryReply, CrawlStart,
    QueueRunFilters,
};
use creatorprogram_crawler::db::creator_lists::CreatorListFilters;
use creatorprogram_crawler::db::filters::DbError;
use creatorprogram_crawler::db::frontier::FrontierRunFinish;
use creatorprogram_crawler::db::items::FrontierJob;
use creatorprogram_crawler::db::queue::{QueueClaimFilters, STALE_NOTE};
use creatorprogram_crawler::db::record::{RecordCreatorOptions, RecordOutcome};
use creatorprogram_crawler::db::rows::{
    AppPolicy, ContactStatus, Database, JobStatus, RunRow, RunStatus,
};
use creatorprogram_crawler::floating::Real;
use creatorprogram_crawler::json::Json;
use creatorprogram_crawler::models::{
    AppClassification, Average, CrawledCreator, CreatorSnapshot, CreatorStats, ExtractedContent,
    Middle, TiktokPost, TiktokPostKind,
};
use creatorprogram_crawler::moment::{clock_at, Clock, Timestamp};

const NOW: &str = "2026-02-01T00:00:00+00:00";
const LATER: &str = "2026-02-02T00:00:00+00:00";

fn clock_after(seconds: i64) -> Clock {
    clock_at(Timestamp { secs: 1_769_904_000 + seconds, nanos: 0 }).unwrap()
}

fn bits_of(x: f64) -> Real {
    Real { bits: x.to_bits() }
}

fn texts(list: &[&str]) -> Vec<String> {
    list.iter().map(|s| s.to_string()).collect()
}

fn post(url: &str, views: u64) -> TiktokPost {
    TiktokPost {
        id: Some(format!("id {url}")),
        url: url.to_string(),
        caption: Some("caption".to_string()),
        views,
        published_at: Some(Timestamp { secs: 1_709_996_402, nanos: 0 }),
        kind: TiktokPostKind::Photo,
        is_pinned: true,
        source_url: None,
        slide_image_urls: Vec::new(),
        visual_image_urls: Vec::new(),
        raw: Json::Bool(true),
    }
}

fn snapshot(handle: &str, following: &[&str], videos: Vec<TiktokPost>) -> CreatorSnapshot {
    CreatorSnapshot {
        handle: handle.to_string(),
        display_name: Some("Name".to_string()),
        country_code: Some("DE".to_string()),
        bio: "bio".to_string(),
        follower_count: Some(u64::MAX),
        following_count: Some(3),
        following: texts(following),
        videos,
        raw: Json::Null,
    }
}

fn crawled(handle: &str, app: Option<&str>, following: &[&str], videos: Vec<TiktokPost>) -> CrawledCreator {
    crawled_creator(
        snapshot(handle, following, videos),
        CreatorStats {
            avg_views: Average { total: 0, count: 0 },
            median_views: Middle { low: 0, high: 0 },
            most_viral_video_url: Some("https://t/2".to_string()),
            most_viral_video_views: Some(20),
        },
        bits_of(15.0),
        bits_of(12.5),
        ExtractedContent { text: "content".to_string(), language_code: "ENG".to_string() },
        AppClassification {
            promotes_app: app.is_some(),
            app_name: app.map(|s| s.to_string()),
            supporting_post_count: 2,
            language_code: "DEU".to_string(),
            creator_name: Some("Contact".to_string()),
            creator_email: Some("a@b.c".to_string()),
            ..AppClassification::no_app()
        },
        Json::Null,
        Timestamp { secs: 1_769_904_000, nanos: 0 },
    )
}

fn keep(db: &mut Database, handle: &str, app: Option<&str>, following: &[&str]) -> RecordOutcome {
    db.record_creator(&crawled(handle, app, following, Vec::new()), NOW).unwrap()
}

fn claim(db: &mut Database) -> Option<String> {
    claim_with(db, QueueClaimFilters::default())
}

fn claim_with(db: &mut Database, filters: QueueClaimFilters) -> Option<String> {
    db.claim_next_filtered(&filters, &clock_after(0)).map(|job| job.handle)
}

fn job(db: &Database, handle: &str) -> (JobStatus, u32, bool, Option<String>) {
    let row = db.queue.iter().find(|row| row.handle == handle).unwrap();
    (row.status, row.attempts, row.manual_priority, row.last_error.clone())
}

fn handles_of(db: &Database) -> Vec<&str> {
    db.queue.iter().map(|row| row.handle.as_str()).collect()
}

#[test]
fn every_refusal_has_its_words() {
    let mut db = Database::new();
    let said = |error: Option<DbError>| error.map(|e| e.message());
    assert_eq!(said(db.seed_handle("?", None, NOW).err()), Some("invalid TikTok handle"));
    assert_eq!(
        said(db.record_creator(&crawled("?", None, &[], Vec::new()), NOW).err()),
        Some("invalid creator handle")
    );
    assert_eq!(
        said(db.remove_queue_items_from_source("@").err()),
        Some("invalid source TikTok handle")
    );
    assert_eq!(said(db.add_app_name("  ", NOW).err()), Some("app name cannot be empty"));
    assert_eq!(
        said(db.set_app_policy("App", "grey", NOW).err()),
        Some("app policy must be whitelist, neutral, or blacklist")
    );
    assert_eq!(
        said(db.set_creator_contact_status("x", "maybe", NOW).err()),
        Some("contact status must be unselected, to_contact, or contacted")
    );
    assert_eq!(
        said(db.set_creator_email("x", Some("no address")).err()),
        Some("email address is not valid")
    );
    assert_eq!(
        said(db.set_creator_contact_status("x", "contacted", NOW).err()),
        Some("creator was not found")
    );
    assert_eq!(
        said(db.create_frontier_run_from_bucket(1, NOW).err()),
        Some("frontier bucket is empty")
    );
    assert_eq!(
        said(db.enqueue_frontier_following(1, "?", 1, &texts(&["a"]), NOW).err()),
        Some("invalid frontier source handle")
    );
    assert_eq!(
        said(db.enqueue_frontier_following(9, "a", 1, &texts(&["b"]), NOW).err()),
        Some("failed to enqueue frontier following")
    );
    let finish = FrontierRunFinish {
        status: "running",
        processed: 0,
        succeeded: 0,
        failed: 0,
        skipped: 0,
        last_error: None,
    };
    assert_eq!(
        said(db.finish_frontier_run(1, &finish, NOW).err()),
        Some("invalid frontier run status")
    );

    let mut unknown = crawled("a", None, &[], Vec::new());
    unknown.avg_views = bits_of(f64::NAN);
    assert_eq!(said(db.record_creator(&unknown, NOW).err()), Some("failed to upsert creator"));
    let twice = crawled("a", None, &[], vec![post("https://t/1", 1), post("https://t/1", 2)]);
    assert_eq!(said(db.record_creator(&twice, NOW).err()), Some("failed to insert video"));
    assert!(db.creators.is_empty() && db.videos.is_empty());

    db.add_frontier_seed("a", None, NOW).unwrap();
    db.runs.push(RunRow {
        id: i64::MAX,
        status: RunStatus::Completed,
        created_at: NOW.to_string(),
        started_at: None,
        finished_at: None,
        seed_count: 0,
        depth_limit: 1,
        processed: 0,
        succeeded: 0,
        failed: 0,
        skipped: 0,
        last_error: None,
    });
    assert_eq!(
        said(db.create_frontier_run_from_bucket(1, NOW).err()),
        Some("failed to create frontier run")
    );
}

#[test]
fn a_creator_is_read_back_as_it_was_crawled() {
    let mut db = Database::new();
    keep(&mut db, "other", Some("App"), &["x"]);
    let posts = vec![post("https://t/1", 10), post("https://t/2", 20)];
    db.record_creator(&crawled("me", Some("App"), &["@B", "a", "me", "b"], posts), NOW).unwrap();
    db.set_creator_contact_status("me", "contacted", LATER).unwrap();
    db.record_creator_country_lookup("me", None, Some("late"), LATER).unwrap();

    let posts = vec![post("https://t/3", u64::MAX)];
    db.record_creator(&crawled("me", Some("Two"), &["c"], posts), LATER).unwrap();
    let row = db.creators.iter().find(|row| row.handle == "me").unwrap();
    assert_eq!(row.promoted_app_name.as_deref(), Some("Two"));
    assert_eq!(row.contact_name.as_deref(), Some("Contact"));
    assert_eq!(row.email.as_deref(), Some("a@b.c"));
    assert_eq!(row.language_code, "DEU");
    assert_eq!(row.scraped_at, NOW);
    assert_eq!(row.follower_count, Some(i64::MAX));
    assert_eq!(f64::from_bits(row.median_views.bits), 12.5);
    assert_eq!(row.contact_status, ContactStatus::Contacted);
    assert_eq!(row.contacted_at.as_deref(), Some(LATER));
    assert_eq!(row.country_code.as_deref(), Some("DE"));
    let mine: Vec<_> = db.videos.iter().filter(|v| v.creator_handle == "me").collect();
    assert_eq!(mine.len(), 1);
    assert_eq!(mine[0].tiktok_url, "https://t/3");
    assert_eq!(mine[0].views, i64::MAX);
    assert_eq!(mine[0].kind, TiktokPostKind::Photo);
    assert_eq!(mine[0].published_at.as_deref(), Some("2024-03-09T15:00:02+00:00"));
    assert!(mine[0].is_pinned && mine[0].is_latest && !mine[0].is_most_viral);
    assert_eq!(mine[0].raw_json, "true");
    assert_eq!(db.list_following_handles("me").unwrap(), texts(&["c"]));
    assert_eq!(db.list_following_handles("other").unwrap(), texts(&["x"]));
}

#[test]
fn followed_accounts_are_listed_once_and_without_the_creator() {
    let mut db = Database::new();
    let outcome = keep(&mut db, "me", Some("App"), &["@B", "a", "me", "b", "?"]);
    assert_eq!(outcome.enqueued_following_count, 2);
    assert_eq!(outcome.promoted_app_name.as_deref(), Some("App"));
    assert_eq!(db.list_following_handles("@Me").unwrap(), texts(&["a", "b"]));
    assert_eq!(handles_of(&db), vec!["a", "b"]);
    let row = &db.queue[0];
    assert_eq!(row.status, JobStatus::Pending);
    assert_eq!(row.discovered_from.as_deref(), Some("me"));
    assert_eq!(row.expected_app_name.as_deref(), Some("App"));
}

#[test]
fn the_job_of_a_creator_that_was_kept_is_done() {
    let mut db = Database::new();
    db.seed_handle("me", None, NOW).unwrap();
    assert_eq!(claim(&mut db).as_deref(), Some("me"));
    keep(&mut db, "me", None, &["a"]);
    assert_eq!(job(&db, "me").0, JobStatus::Done);
    assert_eq!(claim(&mut db), None);
}

#[test]
fn nothing_is_followed_up_without_an_app() {
    let mut db = Database::new();
    assert_eq!(keep(&mut db, "none", None, &["a"]).enqueued_following_count, 0);
    db.set_app_policy("Bad", "blacklist", NOW).unwrap();
    assert_eq!(keep(&mut db, "bad", Some("Bad"), &["b"]).enqueued_following_count, 0);
    let quiet = crawled("quiet", Some("App"), &["c"], Vec::new());
    let kept = finish_crawl(&mut db, "quiet", &quiet, frontier_options(), NOW).unwrap();
    assert_eq!((kept.enqueued_following_count, kept.skipped_already_scraped), (0, false));
    assert!(db.queue.is_empty());
}

#[test]
fn jobs_found_at_a_creator_without_an_app_are_dropped() {
    let mut db = Database::new();
    keep(&mut db, "me", Some("App"), &["a", "b"]);
    let busy = QueueClaimFilters { handles: texts(&["a"]), ..QueueClaimFilters::default() };
    assert_eq!(claim_with(&mut db, busy).as_deref(), Some("a"));
    keep(&mut db, "me", None, &[]);
    assert_eq!(handles_of(&db), vec!["a"]);
    let kept = RecordCreatorOptions { enqueue_following: true, prune_no_app_children: false };
    keep(&mut db, "you", Some("App"), &["c"]);
    db.record_creator_with_options(&crawled("you", None, &[], Vec::new()), kept, NOW).unwrap();
    assert_eq!(handles_of(&db), vec!["a", "c"]);
    assert_eq!(db.remove_queue_items_from_source("you").unwrap(), 1);
}

#[test]
fn what_a_black_list_leaves_out_comes_back() {
    let mut db = Database::new();
    db.enqueue_handle_with_app("a", None, Some("App"), NOW).unwrap();
    db.enqueue_handle_with_app("b", None, Some("Other"), NOW).unwrap();
    assert_eq!(db.set_app_policy("APP", "blacklist", NOW).unwrap(), 1);
    assert_eq!(job(&db, "a").0, JobStatus::Excluded);
    assert_eq!(job(&db, "a").3.as_deref(), Some("app blacklisted"));
    assert_eq!(job(&db, "b").0, JobStatus::Pending);
    assert_eq!(db.set_app_policy("App", " Neutral ", NOW).unwrap(), 1);
    assert_eq!(job(&db, "a"), (JobStatus::Pending, 0, false, None));
}

#[test]
fn jobs_are_taken_in_turn() {
    let mut db = Database::new();
    db.enqueue_handle("late", None, LATER).unwrap();
    db.enqueue_handle("early", None, NOW).unwrap();
    db.enqueue_handle_with_app("white", None, Some("App"), LATER).unwrap();
    db.enqueue_handle("first", None, LATER).unwrap();
    db.set_app_policy("App", "whitelist", NOW).unwrap();
    assert_eq!(db.prioritize_handles(&texts(&["@First", "new", "?"]), LATER), 1);
    assert_eq!(job(&db, "first").2, true);
    let mut order = Vec::new();
    while let Some(handle) = claim(&mut db) {
        order.push(handle);
    }
    assert_eq!(order.len(), 5);
    assert_eq!(order[2..], ["white", "early", "late"]);
    assert!(order[..2].contains(&"first".to_string()) && order[..2].contains(&"new".to_string()));
}

#[test]
fn a_job_that_is_taken_passes_every_filter() {
    let mut db = Database::new();
    db.enqueue_handle_with_app("a", None, Some("One"), NOW).unwrap();
    db.enqueue_handle_with_app("b", None, Some("Two"), NOW).unwrap();
    db.enqueue_handle_with_app("c", None, Some("Bad"), NOW).unwrap();
    db.set_app_policy("Bad", "blacklist", NOW).unwrap();
    let two = || QueueClaimFilters { app_names: texts(&[" two "]), ..QueueClaimFilters::default() };
    assert_eq!(claim_with(&mut db, two()).as_deref(), Some("b"));
    assert_eq!(claim_with(&mut db, two()), None);
    let white = QueueClaimFilters { whitelist_only: true, ..QueueClaimFilters::default() };
    assert_eq!(claim_with(&mut db, white), None);
    let german = QueueClaimFilters { country_codes: texts(&["de"]), ..QueueClaimFilters::default() };
    assert_eq!(claim_with(&mut db, german), None);
    assert_eq!(claim(&mut db).as_deref(), Some("a"));
    assert_eq!(claim(&mut db), None);
    keep(&mut db, "me", Some("One"), &["d"]);
    let german = QueueClaimFilters { country_codes: texts(&["de"]), ..QueueClaimFilters::default() };
    assert_eq!(claim_with(&mut db, german).as_deref(), Some("d"));
}

#[test]
fn a_job_is_tried_three_times() {
    let mut db = Database::new();
    db.enqueue_handle("a", None, NOW).unwrap();
    for attempt in 1..=3 {
        assert_eq!(claim(&mut db).as_deref(), Some("a"));
        assert_eq!(job(&db, "a").1, attempt);
        db.mark_failed("a", &"é".repeat(2000)).unwrap();
        let status = if attempt < 3 { JobStatus::Retry } else { JobStatus::Failed };
        assert_eq!(job(&db, "a"), (status, attempt, false, Some("é".repeat(1500))));
    }
    assert_eq!(claim(&mut db), None);
    assert_eq!(db.prioritize_handles(&texts(&["a"]), NOW), 0);
    assert_eq!(job(&db, "a"), (JobStatus::Pending, 0, true, None));
    assert_eq!(claim(&mut db).as_deref(), Some("a"));
}

#[test]
fn a_job_that_nobody_finishes_is_taken_again() {
    let mut db = Database::new();
    db.enqueue_handle("a", None, NOW).unwrap();
    db.enqueue_handle("b", None, LATER).unwrap();
    assert_eq!(claim(&mut db).as_deref(), Some("a"));
    let all = QueueClaimFilters::default();
    let only = QueueClaimFilters { handles: texts(&["a"]), ..QueueClaimFilters::default() };
    assert!(db.claim_next_filtered(&only, &clock_after(900)).is_none());
    assert_eq!(db.claim_next_filtered(&only, &clock_after(901)).unwrap().attempts, 2);
    assert_eq!(job(&db, "b"), (JobStatus::Pending, 0, false, None));
    for after in [2000, 4000] {
        let _ = db.claim_next_filtered(&only, &clock_after(after));
    }
    assert_eq!(job(&db, "a").0, JobStatus::Failed);
    assert_eq!(job(&db, "a").3.as_deref(), Some(STALE_NOTE));
    assert_eq!(db.claim_next_filtered(&all, &clock_after(6000)).unwrap().handle, "b");
}

#[test]
fn a_seed_can_be_taken_out() {
    let mut db = Database::new();
    assert!(db.add_frontier_seed("@A", Some(" list "), NOW).unwrap());
    assert!(!db.add_frontier_seed("a", None, LATER).unwrap());
    assert!(db.add_frontier_seed("b", None, NOW).unwrap());
    assert_eq!(db.count_frontier_bucket(), 2);
    let seeds = db.list_frontier_bucket(10);
    assert_eq!(seeds[0].handle, "a");
    assert!(db.remove_frontier_seed("A").unwrap());
    assert!(!db.remove_frontier_seed("A").unwrap());
    assert_eq!(db.count_frontier_bucket(), 1);
}

fn started(seeds: &[&str]) -> (Database, i64) {
    let mut db = Database::new();
    for seed in seeds {
        db.add_frontier_seed(seed, None, NOW).unwrap();
    }
    let run = db.create_frontier_run_from_bucket(1, NOW).unwrap();
    assert_eq!(run.seed_count, seeds.len());
    assert_eq!(run.status, RunStatus::Running);
    (db, run.id)
}

fn take(db: &mut Database, run_id: i64) -> Option<FrontierJob> {
    db.claim_next_frontier_item(run_id, &clock_after(0))
}

#[test]
fn a_frontier_run_goes_breadth_first_and_ends_at_its_depth() {
    let (mut db, run_id) = started(&["b", "a"]);
    assert_eq!(db.latest_frontier_run().unwrap().id, run_id);
    assert_eq!(db.resolve_frontier_run_id(None), Some(run_id));
    assert_eq!(db.count_frontier_run_items(Some(run_id)), 2);

    let one = take(&mut db, run_id).unwrap();
    keep(&mut db, &one.handle, Some("App"), &["c", "a"]);
    let added = finish_frontier_job(&mut db, &one, NOW).unwrap();
    assert_eq!(added, 1);
    let two = take(&mut db, run_id).unwrap();
    assert_eq!((two.depth, two.attempts), (0, 1));
    keep(&mut db, &two.handle, None, &[]);
    assert_eq!(finish_frontier_job(&mut db, &two, NOW), Ok(0));

    let deep = take(&mut db, run_id).unwrap();
    assert_eq!((deep.handle.as_str(), deep.depth), ("c", 1));
    assert!(take(&mut db, run_id).is_none());
    keep(&mut db, "c", Some("App"), &["d"]);
    assert_eq!(finish_frontier_job(&mut db, &deep, NOW), Ok(0));
    assert!(take(&mut db, run_id).is_none());
    assert!(db.items.iter().all(|item| item.depth <= 1 && item.status == JobStatus::Done));
    let found = db.list_frontier_run_items(None, 10, 0);
    let last = found.iter().find(|item| item.handle == "c").unwrap();
    assert_eq!(last.discovered_from.as_deref(), Some(one.handle.as_str()));
    assert_eq!(last.promoted_app_name.as_deref(), Some("App"));
    assert_eq!(last.follows_count, 1);
}

#[test]
fn an_item_of_a_run_is_tried_three_times() {
    let (mut db, run_id) = started(&["a"]);
    let other = db.create_frontier_run_from_bucket(1, LATER).unwrap().id;
    assert_eq!(other, run_id + 1);
    for attempt in 1..=3 {
        assert_eq!(take(&mut db, run_id).unwrap().attempts, attempt);
        assert!(take(&mut db, run_id).is_none());
        db.mark_frontier_item_failed(run_id, "a", "no").unwrap();
    }
    assert!(take(&mut db, run_id).is_none());
    let counts = db.frontier_item_status_counts(Some(run_id));
    assert_eq!((counts[0].status, counts[0].count), (JobStatus::Failed, 1));
    assert_eq!(take(&mut db, other).unwrap().attempts, 1);
}

#[test]
fn a_run_is_finished_with_its_numbers() {
    let (mut db, run_id) = started(&["a"]);
    let finish = FrontierRunFinish {
        status: " stopped ",
        processed: 3,
        succeeded: 1,
        failed: 1,
        skipped: 1,
        last_error: Some("why"),
    };
    db.finish_frontier_run(run_id, &finish, LATER).unwrap();
    let run = db.get_frontier_run(run_id).unwrap();
    assert_eq!(run.status, RunStatus::Stopped);
    assert_eq!(run.finished_at.as_deref(), Some(LATER));
    assert_eq!((run.processed, run.succeeded, run.failed, run.skipped), (3, 1, 1, 1));
    assert_eq!(run.last_error.as_deref(), Some("why"));
    assert!(db.get_frontier_run(run_id + 1).is_none());
}

#[test]
fn only_seeds_are_crawled_again() {
    assert!(frontier_force(true, 0));
    assert!(!frontier_force(true, 1));
    assert!(!frontier_force(false, 0));
}

#[test]
fn a_known_creator_is_not_crawled_again() {
    let mut db = Database::new();
    db.enqueue_handle("me", None, NOW).unwrap();
    assert!(matches!(begin_crawl(&mut db, "@Me", false, NOW), Ok(CrawlStart::Fetch(h)) if h == "me"));
    keep(&mut db, "me", None, &[]);
    let Ok(CrawlStart::Skipped(result)) = begin_crawl(&mut db, "me", false, LATER) else {
        panic!("not skipped")
    };
    assert!(result.skipped_already_scraped);
    assert!(matches!(begin_crawl(&mut db, "me", true, NOW), Ok(CrawlStart::Fetch(_))));
    assert!(matches!(begin_crawl(&mut db, "?", true, NOW), Err(DbError::InvalidHandle)));
}

#[test]
fn countries_are_noted_as_profiles_name_them() {
    let mut db = Database::new();
    keep(&mut db, "me", None, &[]);
    let note = |db: &Database| (db.creators[0].country_code.clone(), db.creators[0].country_error.clone());
    let reply = CountryReply::Error("é".repeat(1200));
    assert_eq!(record_country_reply(&mut db, "me", &reply, NOW), Ok(false));
    assert_eq!(note(&db).1, Some("é".repeat(1000)));
    assert_eq!(record_country_reply(&mut db, "me", &CountryReply::Nothing, NOW), Ok(false));
    assert_eq!(note(&db).1.as_deref(), Some("profile region was missing"));
    let reply = CountryReply::Country("fr".to_string());
    assert_eq!(record_country_reply(&mut db, "me", &reply, LATER), Ok(true));
    assert_eq!(note(&db), (Some("FR".to_string()), None));
    assert_eq!(db.creators[0].country_checked_at.as_deref(), Some(LATER));
    assert_eq!(
        record_country_reply(&mut db, "you", &CountryReply::Nothing, NOW),
        Err(DbError::CreatorNotFound)
    );
    let mut summary = CountryBackfillSummary::default();
    summary.note(true);
    summary.note(false);
    assert_eq!((summary.checked, summary.updated, summary.unresolved), (2, 1, 1));
}

#[test]
fn the_app_of_a_creator_can_be_set() {
    let mut db = Database::new();
    keep(&mut db, "me", Some("App"), &["a"]);
    assert_eq!(db.queue.len(), 1);
    assert_eq!(db.set_creator_app("me", None, NOW).unwrap(), 1);
    assert!(db.queue.is_empty());
    assert_eq!(db.creators[0].promoted_app_name, None);
    db.set_creator_app("me", Some(" New "), NOW).unwrap();
    assert_eq!(db.creators[0].promoted_app_name.as_deref(), Some("New"));
    assert!(db.list_app_names().contains(&"New".to_string()));
    db.set_creator_email("me", Some(" X@Y.Z ")).unwrap();
    assert_eq!(db.creators[0].email.as_deref(), Some("x@y.z"));
    db.update_creator_language("me", " spa ").unwrap();
    assert_eq!(db.creators[0].language_code, "SPA");
}

#[test]
fn apps_are_summed_up() {
    let mut db = Database::new();
    keep(&mut db, "a", Some("Beta"), &[]);
    keep(&mut db, "b", Some("Beta"), &[]);
    assert!(db.add_app_name("Alpha", NOW).unwrap());
    assert!(!db.add_app_name(" Alpha ", LATER).unwrap());
    db.set_app_policy("Beta", "whitelist", NOW).unwrap();
    let all: Vec<_> = db
        .list_app_summaries()
        .into_iter()
        .map(|app| (app.name, app.creator_count, app.policy))
        .collect();
    assert!(all.contains(&("Alpha".to_string(), 0, AppPolicy::Neutral)));
    assert!(all.contains(&("Beta".to_string(), 2, AppPolicy::Whitelist)));
}

#[test]
fn creators_are_listed_as_asked() {
    let mut db = Database::new();
    keep(&mut db, "a", Some("App"), &[]);
    keep(&mut db, "b", None, &["x", "y"]);
    let all = CreatorListFilters { limit: 10, ..CreatorListFilters::default() };
    let mut greater = crawled("c", None, &[], Vec::new());
    greater.median_views = bits_of(13.0);
    greater.snapshot.follower_count = Some(1);
    db.record_creator(&greater, NOW).unwrap();
    let order = |sort: &str, dir: &str| {
        let listed = db.list_creators(sort, dir, &all);
        listed.into_iter().map(|c| c.handle).collect::<Vec<_>>()
    };
    assert_eq!(order("median_views", "desc"), texts(&["c", "a", "b"]));
    assert_eq!(order("anything", "Asc"), texts(&["a", "b", "c"]));
    assert_eq!(order("followers", "desc"), texts(&["a", "b", "c"]));
    assert_eq!(order("followers", "asc"), texts(&["c", "a", "b"]));
    assert_eq!(db.list_creators("followers", "desc", &all)[1].follows_count, 2);
    assert_eq!(db.count_creators(&all), 3);
    let app = CreatorListFilters {
        app_names: texts(&["app"]),
        min_median_views: Some(bits_of(12.5)),
        limit: 10,
        ..CreatorListFilters::default()
    };
    assert_eq!(db.count_creators(&app), 1);
    let high = CreatorListFilters {
        min_median_views: Some(bits_of(12.6)),
        limit: 10,
        ..CreatorListFilters::default()
    };
    assert_eq!(db.count_creators(&high), 1);
    assert_eq!(db.list_languages(), texts(&["DEU"]));
    assert_eq!(db.list_countries(), texts(&["DE"]));
}

#[test]
fn jobs_are_shown_with_what_is_known_of_them() {
    let mut db = Database::new();
    keep(&mut db, "me", Some("App"), &["a", "b"]);
    db.enqueue_handle("alone", None, NOW).unwrap();
    let shown = db.list_queue_view(None, None, Some("app"), 10, 0);
    assert_eq!(shown.len(), 2);
    assert_eq!(shown[0].inferred_app_name.as_deref(), Some("App"));
    assert_eq!(shown[0].inferred_language_code.as_deref(), Some("DEU"));
    assert_eq!(shown[0].inferred_country_code.as_deref(), Some("DE"));
    assert_eq!(db.count_queue_view(Some("pending"), None, None), 3);
    assert_eq!(db.count_queue_view(Some("done"), None, None), 0);
    let counts = db.queue_status_counts();
    assert_eq!((counts[0].status, counts[0].count), (JobStatus::Pending, 3));
    assert_eq!(db.list_queue(Some("pending"), 2).len(), 2);
    let groups = db.list_queue_source_view(None, 10, 0);
    let mine = groups.iter().find(|group| group.source_handle == "me").unwrap();
    assert_eq!((mine.item_count, mine.removable_count), (2, 2));
    assert_eq!(mine.country_code.as_deref(), Some("DE"));
    assert_eq!(db.count_queue_source_view(None), groups.len());
    assert_eq!(db.list_queue_parent_countries(), texts(&["DE"]));
}

#[test]
fn the_filters_of_a_run_are_those_of_its_claims() {
    let mut db = Database::new();
    db.enqueue_handle_with_app("a", None, Some("One"), NOW).unwrap();
    let other = QueueRunFilters::for_one(None, Some("Two".to_string()));
    assert_eq!(claim_with(&mut db, other.claim_filters()), None);
    let one = QueueRunFilters::for_one(None, Some("one".to_string()));
    assert_eq!(claim_with(&mut db, one.claim_filters()).as_deref(), Some("a"));
}

#[test]
fn saved_countries_are_brought_up_to_date() {
    let mut db = Database::new();
    for handle in ["a", "b", "c"] {
        keep(&mut db, handle, None, &[]);
    }
    db.creators[0].country_code = Some("en".to_string());
    db.creators[0].language_code = "XYZ".to_string();
    db.creators[1].country_code = Some("xx".to_string());
    db.creators[1].language_code = "swe".to_string();
    db.creators[2].country_code = None;
    db.creators[2].language_code = "XYZ".to_string();
    db.creators[2].country_checked_at = Some(NOW.to_string());
    db.creators[2].country_error = Some("profile region was missing or invalid".to_string());
    db.normalize_saved_locales();
    let countries: Vec<_> = db.creators.iter().map(|c| c.country_code.as_deref()).collect();
    assert_eq!(countries, vec![Some("GB"), Some("SE"), None]);
    assert_eq!(db.creators[2].country_checked_at, None);
    assert_eq!(db.creators[2].country_error, None);
    db.normalize_saved_locales();
    let again: Vec<_> = db.creators.iter().map(|c| c.country_code.as_deref()).collect();
    assert_eq!(again, vec![Some("GB"), Some("SE"), None]);
}

#[test]
fn countries_are_looked_up_for_creators_that_jobs_were_found_at() {
    let mut db = Database::new();
    keep(&mut db, "known", Some("App"), &["a"]);
    keep(&mut db, "open", Some("App"), &["b"]);
    let open = db.creators.iter_mut().find(|c| c.handle == "open").unwrap();
    open.country_code = None;
    assert_eq!(db.list_queue_parents_needing_country(), texts(&["open"]));
    record_country_reply(&mut db, "open", &CountryReply::Nothing, NOW).unwrap();
    assert!(db.list_queue_parents_needing_country().is_empty());
}

#[test]
fn creators_are_listed_for_a_review_of_their_language() {
    let mut db = Database::new();
    keep(&mut db, "b", None, &[]);
    keep(&mut db, "a", None, &[]);
    let all = db.list_language_review_creators(None);
    assert_eq!(all.len(), 2);
    assert_eq!(all[0].bio, "bio");
    assert_eq!(all[0].latest_content_text, "content");
    assert_eq!(db.list_language_review_creators(Some(1)).len(), 1);
}

#[test]
fn the_crawl_goes_on_only_from_creators_who_promote_an_app() {
    let mut db = Database::new();
    keep(&mut db, "me", Some("X"), &["child"]);
    assert_eq!(handles_of(&db), vec!["child"]);
    let mut quiet = crawled("me", Some("X"), &["@next"], Vec::new());
    quiet.classification.promotes_app = false;
    let outcome = db.record_creator(&quiet, NOW).unwrap();
    assert_eq!(outcome.enqueued_following_count, 0);
    assert_eq!(outcome.promoted_app_name.as_deref(), Some("X"));
    assert_eq!(handles_of(&db), vec!["child"]);
    assert_eq!(db.list_following_handles("me").unwrap(), texts(&["next"]));

    let mut nameless = crawled("me", Some(" "), &["@next"], Vec::new());
    nameless.classification.promotes_app = true;
    let outcome = db.record_creator(&nameless, NOW).unwrap();
    assert_eq!(outcome.enqueued_following_count, 0);
    assert_eq!(outcome.promoted_app_name, None);
    assert!(db.queue.is_empty());
}

#[test]
fn pages_taken_in_turn_are_what_is_counted() {
    let mut db = Database::new();
    for handle in ["e", "b", "d", "a", "c"] {
        keep(&mut db, handle, None, &[]);
    }
    let mut seen = Vec::new();
    loop {
        let page = CreatorListFilters {
            limit: 2,
            offset: seen.len(),
            ..CreatorListFilters::default()
        };
        assert_eq!(db.count_creators(&page), 5);
        let listed = db.list_creators("median_views", "desc", &page);
        if listed.is_empty() {
            break;
        }
        seen.extend(listed.into_iter().map(|c| c.handle));
    }
    assert_eq!(seen, texts(&["a", "b", "c", "d", "e"]));
}
