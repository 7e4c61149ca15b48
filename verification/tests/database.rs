//! The database: recording creators, the queue, apps and their policies.

use creatorprogram_crawler::db::creator_lists::CreatorListFilters;
use creatorprogram_crawler::db::filters::country_code_for_language;
use creatorprogram_crawler::db::queue::QueueClaimFilters;
use creatorprogram_crawler::db::record::RecordCreatorOptions;
use creatorprogram_crawler::db::rows::{ContactStatus, CreatorRow, Database};
use creatorprogram_crawler::floating::Real;
use creatorprogram_crawler::json::Json;
use creatorprogram_crawler::models::{
    AppClassification, Average, CrawledCreator, CreatorSnapshot, CreatorStats, ExtractedContent,
    Middle, TiktokPost, TiktokPostKind,
};
use creatorprogram_crawler::moment::{clock_at, Clock, Timestamp};

const NOW: &str = "2026-02-01T00:00:00+00:00";

/// The first of February 2026.
fn now_stamp() -> Timestamp {
    Timestamp { secs: 1_769_904_000, nanos: 0 }
}

fn clock() -> Clock {
    clock_at(now_stamp()).unwrap()
}

fn bits_of(x: f64) -> Real {
    Real { bits: x.to_bits() }
}

fn post(url: &str, views: u64) -> TiktokPost {
    TiktokPost {
        id: None,
        url: url.to_string(),
        caption: None,
        views,
        published_at: None,
        kind: TiktokPostKind::Video,
        is_pinned: false,
        source_url: None,
        slide_image_urls: Vec::new(),
        visual_image_urls: Vec::new(),
        raw: Json::Null,
    }
}

fn promoting(app: &str, confidence: f64, evidence: &str) -> AppClassification {
    AppClassification {
        promotes_app: true,
        app_name: Some(app.to_string()),
        is_existing_app: false,
        existing_app_name: None,
        is_new_app: true,
        supporting_post_count: 2,
        language_code: "ENG".to_string(),
        creator_name: None,
        creator_email: None,
        confidence: bits_of(confidence),
        evidence: evidence.to_string(),
    }
}

fn creator(
    handle: &str,
    following: Vec<String>,
    language: &str,
    classification: AppClassification,
) -> CrawledCreator {
    CrawledCreator {
        snapshot: CreatorSnapshot {
            handle: handle.to_string(),
            display_name: None,
            country_code: None,
            bio: String::new(),
            follower_count: None,
            following_count: None,
            following,
            videos: Vec::new(),
            raw: Json::Null,
        },
        stats: CreatorStats {
            avg_views: Average { total: 0, count: 0 },
            median_views: Middle { low: 0, high: 0 },
            most_viral_video_url: None,
            most_viral_video_views: None,
        },
        avg_views: bits_of(0.0),
        median_views: bits_of(0.0),
        latest_content: ExtractedContent {
            text: String::new(),
            language_code: language.to_string(),
        },
        classification,
        confidence_json: Json::Null,
        scraped_at: now_stamp(),
    }
}

fn claim(db: &mut Database, filters: QueueClaimFilters) -> Option<(String, u32)> {
    db.claim_next_filtered(&filters, &clock()).map(|job| (job.handle, job.attempts))
}

#[test]
fn maps_classified_languages_to_parent_markets() {
    assert_eq!(country_code_for_language("SLK").as_deref(), Some("SK"));
    assert_eq!(country_code_for_language("CES").as_deref(), Some("CZ"));
    assert_eq!(country_code_for_language("SPA").as_deref(), Some("ES"));
    assert_eq!(country_code_for_language("UNKNOWN"), None);
}

#[test]
fn enqueues_following_only_when_creator_promotes_app() {
    let mut db = Database::new();
    db.seed_handle("@seed", None, NOW).unwrap();

    let mut crawled = creator(
        "seed",
        vec!["@next".to_string(), "@next".to_string()],
        "EN",
        promoting("ExampleApp", 0.95, "bio"),
    );
    crawled.snapshot.bio = "ExampleApp ambassador".to_string();
    crawled.snapshot.follower_count = Some(1234);
    crawled.snapshot.following_count = Some(77);
    crawled.snapshot.videos = vec![post("https://tiktok.test/@seed/video/1", 100)];
    crawled.stats = CreatorStats {
        avg_views: Average { total: 100, count: 1 },
        median_views: Middle { low: 100, high: 100 },
        most_viral_video_url: Some("https://tiktok.test/@seed/video/1".to_string()),
        most_viral_video_views: Some(100),
    };
    crawled.avg_views = bits_of(100.0);
    crawled.median_views = bits_of(100.0);
    crawled.latest_content.text = "Use ExampleApp".to_string();

    let outcome = db.record_creator(&crawled, NOW).unwrap();
    assert_eq!(outcome.enqueued_following_count, 1);
    assert_eq!(db.list_app_names(), vec!["ExampleApp"]);
    assert!(db.is_scraped("seed").unwrap());
    let creators = db.list_creators(
        "followers",
        "desc",
        &CreatorListFilters {
            min_followers: Some(1000),
            max_followers: Some(2000),
            min_following: Some(50),
            max_following: Some(100),
            ..CreatorListFilters::default()
        },
    );
    assert_eq!(creators[0].follower_count, Some(1234));
    assert_eq!(creators[0].following_count, Some(77));
}

#[test]
fn claims_whitelisted_app_queue_items_before_older_regular_items() {
    let mut db = Database::new();
    db.enqueue_handle("@older_regular", None, NOW).unwrap();
    db.enqueue_handle_with_app("@newer_app_seed", None, Some("Astra AI"), NOW).unwrap();
    db.set_app_policy("Astra AI", "whitelist", NOW).unwrap();

    for row in db.queue.iter_mut() {
        if row.handle == "older_regular" {
            row.found_at = "2026-01-01T00:00:00Z".to_string();
        }
        if row.handle == "newer_app_seed" {
            row.found_at = "2026-01-02T00:00:00Z".to_string();
        }
    }

    let job = claim(&mut db, QueueClaimFilters::default()).unwrap();
    assert_eq!(job.0, "newer_app_seed");
}

#[test]
fn blacklisted_apps_are_excluded_and_can_be_restored() {
    let mut db = Database::new();
    db.enqueue_handle_with_app("@blocked_creator", None, Some("Blocked App"), NOW).unwrap();

    assert_eq!(db.set_app_policy("Blocked App", "blacklist", NOW).unwrap(), 1);
    assert!(claim(&mut db, QueueClaimFilters::default()).is_none());

    assert_eq!(db.set_app_policy("Blocked App", "neutral", NOW).unwrap(), 1);
    let job = claim(&mut db, QueueClaimFilters::default()).unwrap();
    assert_eq!(job.0, "blocked_creator");
}

#[test]
fn explicit_handle_batch_overrides_app_blacklist() {
    let mut db = Database::new();
    db.enqueue_handle_with_app("@selected_creator", None, Some("Blocked App"), NOW).unwrap();
    db.set_app_policy("Blocked App", "blacklist", NOW).unwrap();
    let handles = vec!["@selected_creator".to_string()];
    db.prioritize_handles(&handles, NOW);

    let job = claim(
        &mut db,
        QueueClaimFilters { handles, ..QueueClaimFilters::default() },
    )
    .unwrap();
    assert_eq!(job.0, "selected_creator");
}

#[test]
fn claims_queue_items_by_inferred_app() {
    let mut db = Database::new();
    let crawled = creator(
        "source",
        vec!["astra_candidate".to_string()],
        "ENG",
        promoting("Astra AI", 0.9, ""),
    );
    db.record_creator(&crawled, NOW).unwrap();
    db.enqueue_handle_with_app("manual_ick_candidate", None, Some("The Ick"), NOW).unwrap();

    let ick_job = claim(
        &mut db,
        QueueClaimFilters {
            app_name: Some("The Ick".to_string()),
            ..QueueClaimFilters::default()
        },
    )
    .unwrap();
    assert_eq!(ick_job.0, "manual_ick_candidate");

    let astra_job = claim(
        &mut db,
        QueueClaimFilters {
            app_name: Some("Astra AI".to_string()),
            ..QueueClaimFilters::default()
        },
    )
    .unwrap();
    assert_eq!(astra_job.0, "astra_candidate");
}

fn plain_creator_row(handle: &str, language: &str) -> CreatorRow {
    CreatorRow {
        handle: handle.to_string(),
        display_name: None,
        contact_name: None,
        bio: String::new(),
        country_code: None,
        country_checked_at: None,
        country_error: None,
        follower_count: None,
        following_count: None,
        avg_views: bits_of(0.0),
        median_views: bits_of(0.0),
        most_viral_video_url: None,
        most_viral_video_views: None,
        latest_content_text: String::new(),
        promoted_app_name: None,
        email: None,
        language_code: language.to_string(),
        scraped_at: NOW.to_string(),
        contact_status: ContactStatus::Unselected,
        contact_priority_at: None,
        contacted_at: None,
        raw_json: "{}".to_string(),
    }
}

#[test]
fn queue_country_filter_uses_the_parent_creator_country() {
    let mut db = Database::new();
    db.creators.push(plain_creator_row("parent", "DEU"));
    db.enqueue_handle("@child", Some("parent"), NOW).unwrap();

    assert_eq!(db.list_queue_parents_needing_country(), vec!["parent".to_string()]);
    db.record_creator_country_lookup("parent", Some("de"), None, NOW).unwrap();

    assert_eq!(db.list_queue_parent_countries(), vec!["DE".to_string()]);
    let countries = vec!["DE".to_string()];
    let job = claim(
        &mut db,
        QueueClaimFilters { country_codes: countries, ..QueueClaimFilters::default() },
    )
    .unwrap();
    assert_eq!(job.0, "child");
    let sources = db.list_queue_source_view(Some("processing"), 10, 0);
    assert_eq!(sources.len(), 1);
    assert_eq!(sources[0].source_handle, "parent");
    assert_eq!(sources[0].item_count, 1);
    assert_eq!(sources[0].country_code.as_deref(), Some("DE"));
    assert_eq!(db.remove_queue_items_from_source("parent").unwrap(), 1);
    assert_eq!(db.count_queue_view(None, None, None), 0);
}

#[test]
fn clearing_creator_app_prunes_unprocessed_discovered_queue_items() {
    let mut db = Database::new();
    let crawled = creator(
        "source",
        vec!["child_a".to_string(), "child_b".to_string()],
        "ENG",
        promoting("Astra AI", 0.9, ""),
    );
    db.record_creator(&crawled, NOW).unwrap();

    let queued_before = db.list_queue(None, 10);
    assert_eq!(queued_before.len(), 2);

    let pruned = db.set_creator_app("source", None, NOW).unwrap();
    assert_eq!(pruned, 2);
    assert!(db.list_queue(None, 10).is_empty());
}

#[test]
fn frontier_recording_keeps_follow_edges_without_global_queue_enqueue() {
    let mut db = Database::new();
    let crawled = creator(
        "source",
        vec!["child_a".to_string(), "child_b".to_string()],
        "ENG",
        promoting("Astra AI", 0.9, ""),
    );
    let outcome = db
        .record_creator_with_options(
            &crawled,
            RecordCreatorOptions { enqueue_following: false, prune_no_app_children: false },
            NOW,
        )
        .unwrap();

    assert_eq!(outcome.enqueued_following_count, 0);
    assert!(db.list_queue(None, 10).is_empty());
    assert_eq!(
        db.list_following_handles("source").unwrap(),
        vec!["child_a".to_string(), "child_b".to_string()]
    );
}

#[test]
fn frontier_run_seeds_depth_zero_and_expands_to_depth_one() {
    let mut db = Database::new();

    assert!(db.add_frontier_seed("@seed", Some("test"), NOW).unwrap());
    assert!(!db.add_frontier_seed("seed", Some("test"), NOW).unwrap());
    let run = db.create_frontier_run_from_bucket(1, NOW).unwrap();
    assert_eq!(run.seed_count, 1);

    let seed_job = db.claim_next_frontier_item(run.id, &clock()).unwrap();
    assert_eq!(seed_job.handle, "seed");
    assert_eq!(seed_job.depth, 0);

    let inserted = db
        .enqueue_frontier_following(
            run.id,
            "seed",
            1,
            &vec!["@child_a".to_string(), "@child_b".to_string(), "@child_a".to_string()],
            NOW,
        )
        .unwrap();
    assert_eq!(inserted, 2);
    db.mark_frontier_item_done(run.id, "seed", NOW).unwrap();

    let items = db.list_frontier_run_items(Some(run.id), 10, 0);
    let depths = items
        .iter()
        .map(|item| (item.handle.as_str(), item.depth, item.discovered_from.as_deref()))
        .collect::<Vec<_>>();
    assert_eq!(
        depths,
        vec![
            ("seed", 0, None),
            ("child_a", 1, Some("seed")),
            ("child_b", 1, Some("seed")),
        ]
    );
}

#[test]
fn claims_retry_queue_items_again() {
    let mut db = Database::new();
    db.enqueue_handle("@retry_me", None, NOW).unwrap();
    let first_claim = claim(&mut db, QueueClaimFilters::default()).unwrap();
    assert_eq!(first_claim.0, "retry_me");
    db.mark_failed("retry_me", "temporary timeout").unwrap();

    let second_claim = claim(&mut db, QueueClaimFilters::default()).unwrap();
    assert_eq!(second_claim.0, "retry_me");
    assert_eq!(second_claim.1, 2);
}

#[test]
fn reclaims_stale_processing_queue_items() {
    let mut db = Database::new();
    db.enqueue_handle("@stale_job", None, NOW).unwrap();
    let first_claim = claim(&mut db, QueueClaimFilters::default()).unwrap();
    assert_eq!(first_claim.0, "stale_job");

    for row in db.queue.iter_mut() {
        if row.handle == "stale_job" {
            row.locked_at = Some("2026-01-01T00:00:00+00:00".to_string());
        }
    }

    let second_claim = claim(&mut db, QueueClaimFilters::default()).unwrap();
    assert_eq!(second_claim.0, "stale_job");
    assert_eq!(second_claim.1, 2);
}

#[test]
fn creator_email_is_stored_from_gpt_classification() {
    let mut db = Database::new();
    let mut crawled = creator(
        "seed",
        Vec::new(),
        "UNKNOWN",
        AppClassification {
            creator_name: Some("Seed".to_string()),
            creator_email: Some("seed@example.com".to_string()),
            ..AppClassification::no_app()
        },
    );
    crawled.snapshot.bio = "Business: seed@example.com".to_string();

    db.record_creator(&crawled, NOW).unwrap();
    let creators = db.list_creators(
        "median_views",
        "desc",
        &CreatorListFilters {
            email_filter: Some("has".to_string()),
            ..CreatorListFilters::default()
        },
    );
    assert_eq!(creators[0].email.as_deref(), Some("seed@example.com"));

    db.set_creator_email("seed", Some("Updated@Example.com")).unwrap();
    let creators = db.list_creators("median_views", "desc", &CreatorListFilters::default());
    assert_eq!(creators[0].email.as_deref(), Some("updated@example.com"));

    db.set_creator_email("seed", Some("unknown")).unwrap();
    let creators = db.list_creators("median_views", "desc", &CreatorListFilters::default());
    assert_eq!(creators[0].email, None);
}

#[test]
fn creator_app_filter_separates_any_app_from_no_app() {
    let mut db = Database::new();
    let mut crawled = creator(
        "with_app",
        Vec::new(),
        "UNKNOWN",
        promoting("Astra AI", 0.9, ""),
    );
    db.record_creator(&crawled, NOW).unwrap();

    crawled.snapshot.handle = "without_app".to_string();
    crawled.classification = AppClassification::no_app();
    db.record_creator(&crawled, NOW).unwrap();

    let with_app = db.list_creators(
        "median_views",
        "desc",
        &CreatorListFilters {
            app_mode: Some("__WITH_APP__".to_string()),
            ..CreatorListFilters::default()
        },
    );
    let no_app = db.list_creators(
        "median_views",
        "desc",
        &CreatorListFilters {
            app_mode: Some("__NO_APP__".to_string()),
            ..CreatorListFilters::default()
        },
    );

    assert_eq!(
        with_app.iter().map(|item| item.handle.as_str()).collect::<Vec<_>>(),
        vec!["with_app"]
    );
    assert_eq!(
        no_app.iter().map(|item| item.handle.as_str()).collect::<Vec<_>>(),
        vec!["without_app"]
    );
}
