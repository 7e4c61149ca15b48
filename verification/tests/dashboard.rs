//! Runs, the dashboard and the review of languages.

use creatorprogram_crawler::crawler::run::{
    clamp, CrawlOutcome, Phase, Run, RunAction, RunSummary,
};
use creatorprogram_crawler::db::filters::DbError;
use creatorprogram_crawler::db::items::LanguageReviewCreator;
use creatorprogram_crawler::db::rows::{Database, JobStatus, RunStatus};
use creatorprogram_crawler::floating::Real;
use creatorprogram_crawler::models::LanguageClassification;
use creatorprogram_crawler::review::{apply_changes, report, Review, ReviewResult};
use creatorprogram_crawler::web::pages::{
    creator_page, frontier_item_page, frontier_status, queue_page, seed_page, source_page,
};
use creatorprogram_crawler::web::requests::{
    normalize_request_values, page_request, parse_csv, place_of, requested_seeds, ApiError,
    CreatorQuery, PageRequest,
};
use creatorprogram_crawler::web::runners::{
    frontier_finish, FrontierRunRequest, RunRequest, RunResult, Runners,
};

const NOW: &str = "2026-02-01T00:00:00+00:00";

fn texts(list: &[&str]) -> Vec<String> {
    list.iter().map(|s| s.to_string()).collect()
}

fn nothing_asked() -> RunRequest {
    RunRequest {
        concurrency: None,
        limit: None,
        countries: None,
        apps: None,
        handles: None,
        whitelist_only: None,
    }
}

fn frontier_asked() -> FrontierRunRequest {
    FrontierRunRequest { concurrency: None, limit: None, refresh_seeds: None }
}

#[test]
fn a_run_stays_within_its_limit() {
    let mut run = Run::new(Some(3), 2, false);
    let mut jobs = 10;
    let mut batches = Vec::new();
    while run.begin(false) == RunAction::Claim {
        let mut batch = 0;
        while run.wants_job(false) && jobs > 0 {
            jobs -= 1;
            batch += 1;
            run.job_taken();
        }
        assert_eq!(run.batch_complete(), RunAction::Crawl);
        for _ in 0..batch {
            run.crawled(CrawlOutcome::Succeeded);
        }
        batches.push(batch);
    }
    assert_eq!(batches, vec![2, 1]);
    assert_eq!(jobs, 7);
    assert_eq!(run.phase, Phase::Finished);
    assert_eq!(
        run.summary,
        RunSummary { processed: 3, succeeded: 3, failed: 0, skipped: 0 }
    );
}

#[test]
fn a_summary_adds_up() {
    let mut run = Run::new(None, 0, false);
    assert_eq!(run.concurrency, 1);
    for outcome in [CrawlOutcome::Failed, CrawlOutcome::Skipped, CrawlOutcome::Succeeded] {
        assert_eq!(run.begin(false), RunAction::Claim);
        run.job_taken();
        assert!(!run.wants_job(false));
        assert_eq!(run.batch_complete(), RunAction::Crawl);
        run.crawled(outcome);
    }
    assert_eq!(
        run.summary,
        RunSummary { processed: 3, succeeded: 1, failed: 1, skipped: 1 }
    );
    assert!(RunSummary::default() == RunSummary { processed: 0, succeeded: 0, failed: 0, skipped: 0 });
}

#[test]
fn a_run_that_watches_waits_for_jobs() {
    let mut run = Run::new(None, 2, true);
    assert_eq!(run.begin(false), RunAction::Claim);
    assert!(!run.wants_job(true));
    assert_eq!(run.batch_complete(), RunAction::Wait);
    assert_eq!(run.begin(true), RunAction::Finish);
    let mut run = Run::new(None, 2, false);
    assert_eq!(run.begin(false), RunAction::Claim);
    assert_eq!(run.batch_complete(), RunAction::Finish);
    let mut run = Run::new(Some(0), 2, true);
    assert_eq!(run.begin(false), RunAction::Finish);
    assert_eq!((clamp(0, 1, 25), clamp(9, 1, 25), clamp(26, 1, 25)), (1, 9, 25));
}

#[test]
fn only_one_run_goes_on() {
    let mut db = Database::new();
    let mut runners = Runners::new();
    db.add_frontier_seed("seed", None, NOW).unwrap();
    assert!(runners.start_queue_run(&mut db, &nothing_asked(), NOW).is_ok());
    assert!(matches!(
        runners.start_frontier_run(&mut db, &frontier_asked(), NOW),
        Err(ApiError::QueueRunning)
    ));
    assert!(matches!(
        runners.start_queue_run(&mut db, &nothing_asked(), NOW),
        Err(ApiError::ScraperRunning)
    ));
    assert!(runners.stop_queue_run());
    assert!(runners.queue.stopping);
    let summary = RunSummary { processed: 1, succeeded: 1, failed: 0, skipped: 0 };
    runners.queue_run_ended(RunResult::Completed(summary), NOW);
    assert!(!runners.queue.running && !runners.queue.stopping);
    assert_eq!(runners.queue.last_summary, Some(summary));
    assert!(!runners.stop_queue_run());

    let plan = runners.start_frontier_run(&mut db, &frontier_asked(), NOW).ok().unwrap();
    assert_eq!((plan.concurrency, plan.refresh_seeds), (10, true));
    assert_eq!(runners.frontier.run_id, Some(plan.run_id));
    let named = RunRequest { handles: Some(texts(&["a"])), ..nothing_asked() };
    assert!(matches!(
        runners.start_queue_run(&mut db, &named, NOW),
        Err(ApiError::FrontierRunning)
    ));
    assert!(db.queue.is_empty());
    assert!(matches!(
        runners.start_frontier_run(&mut db, &frontier_asked(), NOW),
        Err(ApiError::FrontierRunning)
    ));
    assert!(runners.stop_frontier_run());
    let result = RunResult::Completed(summary);
    let finish = frontier_finish(&result, true);
    assert_eq!((finish.status, finish.processed, finish.last_error), ("stopped", 1, None));
    runners.frontier_run_ended(result, Some("not kept".to_string()), NOW);
    assert_eq!(runners.frontier.last_error.as_deref(), Some("not kept"));
    let result = RunResult::Failed("broke".to_string());
    let finish = frontier_finish(&result, true);
    assert_eq!((finish.status, finish.last_error), ("failed", Some("broke")));
    runners.frontier_run_ended(result, None, NOW);
    assert_eq!(runners.frontier.last_error.as_deref(), Some("broke"));
    assert!(!runners.stop_frontier_run());

    db.remove_frontier_seed("seed").unwrap();
    assert!(matches!(
        runners.start_frontier_run(&mut db, &frontier_asked(), NOW),
        Err(ApiError::Database(DbError::EmptyBucket))
    ));
}

#[test]
fn a_request_decides_which_jobs_a_run_takes() {
    let mut db = Database::new();
    let mut runners = Runners::new();
    let plan = runners.start_queue_run(&mut db, &nothing_asked(), NOW).ok().unwrap();
    assert!(plan.filters.whitelist_only);
    runners.queue_run_ended(RunResult::Failed("no".to_string()), NOW);
    let request = RunRequest {
        concurrency: Some(99),
        limit: Some(4),
        countries: Some(texts(&["de", " DE", "at"])),
        apps: Some(texts(&["App", "app "])),
        handles: Some(texts(&["@Me"])),
        ..nothing_asked()
    };
    let plan = runners.start_queue_run(&mut db, &request, NOW).ok().unwrap();
    assert!(!plan.filters.whitelist_only);
    assert_eq!((plan.concurrency, plan.limit), (25, Some(4)));
    assert_eq!(plan.filters.country_codes, texts(&["AT", "DE"]));
    assert_eq!(plan.filters.app_names, texts(&["App"]));
    assert_eq!(runners.queue.handles, texts(&["@Me"]));
    assert_eq!(db.queue.len(), 1);
    assert!(db.queue[0].manual_priority);
    assert_eq!(db.queue[0].status, JobStatus::Pending);
}

#[test]
fn refusals_have_a_status() {
    assert_eq!((ApiError::NoHandle.status(), ApiError::QueueRunning.status()), (400, 409));
    assert_eq!((ApiError::ScraperRunning.status(), ApiError::FrontierRunning.status()), (409, 409));
    let refused = ApiError::Database(DbError::InvalidEmail);
    assert_eq!((refused.status(), refused.message()), (500, "email address is not valid"));
    assert_eq!(ApiError::NoHandle.message(), "at least one handle is required");
    assert_eq!(ApiError::QueueRunning.message(), "queue scraper is already running");
    assert_eq!(ApiError::ScraperRunning.message(), "scraper is already running");
    assert_eq!(ApiError::FrontierRunning.message(), "frontier crawler is already running");
    assert!(matches!(requested_seeds(None, None), Err(ApiError::NoHandle)));
    assert_eq!(
        requested_seeds(Some(texts(&["a"])), Some("b".to_string())).ok().unwrap(),
        texts(&["a", "b"])
    );
}

#[test]
fn lists_of_values_are_read() {
    assert_eq!(parse_csv(Some(" b, A,,a , c")), texts(&["A", "b", "c"]));
    assert!(parse_csv(None).is_empty());
    assert_eq!(normalize_request_values(&texts(&["x", "Y "]), true), texts(&["X", "Y"]));
}

#[test]
fn pages_have_a_place() {
    assert_eq!(page_request(None, None, 50), PageRequest { limit: 50, offset: 0 });
    assert_eq!(page_request(Some(0), Some(7), 50), PageRequest { limit: 1, offset: 7 });
    assert_eq!(page_request(Some(501), None, 50).limit, 500);
    let place = place_of(PageRequest { limit: 10, offset: 10 }, 21);
    assert!(place.has_next && place.has_prev);
    let place = place_of(PageRequest { limit: 10, offset: usize::MAX }, 21);
    assert!(!place.has_next && place.has_prev);
    let place = place_of(PageRequest { limit: 10, offset: 0 }, 10);
    assert!(!place.has_next && !place.has_prev);
}

#[test]
fn pages_show_what_the_database_holds() {
    let mut db = Database::new();
    for handle in ["a", "b", "c"] {
        db.enqueue_handle(handle, Some("me"), NOW).unwrap();
        db.add_frontier_seed(handle, None, NOW).unwrap();
    }
    let page = queue_page(&db, None, None, None, Some(2), Some(1));
    assert_eq!(page.items.len(), 2);
    assert_eq!((page.place.total, page.place.has_next, page.place.has_prev), (3, false, true));
    assert_eq!(page.counts[0].count, 3);
    let page = source_page(&db, None, None, None);
    assert_eq!((page.items.len(), page.place.total, page.place.limit), (1, 1, 100));
    assert_eq!(seed_page(&db).total, 3);
    assert_eq!(seed_page(&db).items.len(), 3);
    let status = frontier_status(&db, None);
    assert!(status.latest_run.is_none() && status.item_counts.is_empty());
    let run = db.create_frontier_run_from_bucket(1, NOW).unwrap();
    let page = frontier_item_page(&db, None, Some(1), None);
    assert_eq!((page.items.len(), page.place.total), (1, 3));
    assert_eq!(page.run.unwrap().status, RunStatus::Running);
    assert_eq!(frontier_status(&db, Some(run.id)).bucket_count, 3);
    let query = CreatorQuery {
        sort: None,
        dir: None,
        app_mode: None,
        apps: None,
        languages: None,
        countries: None,
        contact_statuses: None,
        email: None,
        min_followers: None,
        max_followers: None,
        min_following: None,
        max_following: None,
        min_median_views: None,
        max_median_views: None,
        min_avg_views: None,
        max_avg_views: None,
        limit: None,
        offset: None,
    };
    assert_eq!((query.sort_by().as_str(), query.sort_dir().as_str()), ("median_views", "desc"));
    let page = creator_page(&db, &query);
    assert_eq!((page.creators.len(), page.place.limit), (0, 50));
}

fn review(handle: &str, old_code: &str, result: ReviewResult) -> Review {
    Review {
        creator: LanguageReviewCreator {
            handle: handle.to_string(),
            bio: String::new(),
            latest_content_text: String::new(),
            language_code: old_code.to_string(),
        },
        result,
    }
}

fn found(code: &str) -> ReviewResult {
    ReviewResult::Found(LanguageClassification {
        language_code: code.to_string(),
        confidence: Real { bits: 0.5f64.to_bits() },
        evidence: "heard".to_string(),
    })
}

#[test]
fn reviews_are_accounted_for() {
    let reviews = vec![
        review("c", " eng ", found("SPA")),
        review("b", "eng", found("ENG")),
        review("z", "eng", ReviewResult::Failed("late".to_string())),
        review("a", "", found("DEU")),
        review("y", "eng", ReviewResult::Failed("lost".to_string())),
    ];
    let all = report(&reviews, true);
    assert_eq!((all.scanned, all.changed, all.applied), (5, 2, true));
    assert_eq!(all.changes[0].handle, "a");
    assert_eq!(all.changes[1].old_language_code, "ENG");
    assert_eq!(all.changes[1].new_language_code, "SPA");
    assert_eq!(all.errors[0].handle, "y");
    assert_eq!(all.errors[1].error, "late");
    let mut db = Database::new();
    assert!(apply_changes(&mut db, &all.changes).is_ok());
}
