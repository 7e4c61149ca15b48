//! What is done with the database before and after a creator is crawled.

use vstd::prelude::*;
use crate::crawler::content;
use crate::db::creator_lists;
use crate::db::creators;
use crate::db::filters;
use crate::db::filters::DbError;
use crate::db::frontier;
use crate::db::items::FrontierJob;
use crate::db::outcomes;
use crate::db::queue;
use crate::db::queue::{ClaimView, QueueClaimFilters};
use crate::db::record;
use crate::db::record::{RecordCreatorOptions, RecordOutcome};
use crate::db::record_laws;
use crate::db::rows;
use crate::db::rows::{Database, DatabaseView, ItemView};
use crate::floating::Real;
use crate::handles;
use crate::json::Json;
use crate::lists;
use crate::models;
use crate::models::{
    AppClassification, CrawlView, CrawledCreator, CreatorSnapshot, CreatorStats, ExtractedContent,
};
use crate::moment::Timestamp;
use crate::order;
use crate::search;

verus! {

/// How deep a frontier run goes.
pub const FRONTIER_DEPTH_LIMIT: u8 = 1;

// ---------------------------------------------------------------------------
// One creator
// ---------------------------------------------------------------------------
/// What came of crawling one creator.
pub struct CrawlResult {
    pub handle: String,
    pub skipped_already_scraped: bool,
    pub promoted_app_name: Option<String>,
    pub enqueued_following_count: usize,
}

/// How crawling a creator begins.
pub enum CrawlStart {
    /// The creator is known and is not crawled again.
    Skipped(CrawlResult),
    /// The creator with this handle is fetched.
    Fetch(String),
}

/// Begins to crawl a creator. One that is known is not crawled again unless
/// that is asked for; the job for it is then done.
pub fn begin_crawl(db: &mut Database, handle: &str, force: bool, now: &str) -> (r: Result<
    CrawlStart,
    DbError,
>)
    requires
        old(db)@.wf(),
    ensures
        final(db)@.wf(),
        match handles::normalized_handle(handle@) {
            None => r == Err::<CrawlStart, DbError>(DbError::InvalidHandle) && final(db)@ == old(db)@,
            Some(h) => if !force && rows::has_creator(old(db)@.creators, h) {
                &&& r matches Ok(CrawlStart::Skipped(result))
                &&& result.handle@ == h
                &&& result.skipped_already_scraped
                &&& result.promoted_app_name is None
                &&& result.enqueued_following_count == 0
                &&& final(db)@ == (DatabaseView {
                    queue: old(db)@.queue.map_values(outcomes::finished(h, now@)),
                    ..old(db)@
                })
            } else {
                r matches Ok(CrawlStart::Fetch(name)) && name@ == h && final(db)@ == old(db)@
            },
        },
{
    let name: String = match handles::normalize_handle(handle) {
        Some(name) => name,
        None => {
            return Err(DbError::InvalidHandle);
        },
    };
    proof {
        handles::law_normalized_handle_idempotent(handle@);
    }
    if !force {
        match db.is_scraped(name.as_str()) {
            Err(error) => {
                return Err(error);
            },
            Ok(true) => {
                match db.mark_done(name.as_str(), now) {
                    Err(error) => {
                        return Err(error);
                    },
                    Ok(()) => {
                        return Ok(
                            CrawlStart::Skipped(
                                CrawlResult {
                                    handle: name,
                                    skipped_already_scraped: true,
                                    promoted_app_name: None,
                                    enqueued_following_count: 0,
                                },
                            ),
                        );
                    },
                }
            },
            Ok(false) => {},
        }
    }
    Ok(CrawlStart::Fetch(name))
}

/// All that a crawl found: the language of the classification counts for the
/// content, where there is one.
pub fn crawled_creator(
    snapshot: CreatorSnapshot,
    stats: CreatorStats,
    avg_views: Real,
    median_views: Real,
    content: ExtractedContent,
    classification: AppClassification,
    confidence_json: Json,
    scraped_at: Timestamp,
) -> (r: CrawledCreator)
    ensures
        r@ == (CrawlView {
            snapshot: snapshot@,
            avg_views: avg_views,
            median_views: median_views,
            most_viral_video_url: models::opt_text(stats.most_viral_video_url),
            most_viral_video_views: stats.most_viral_video_views,
            latest_content: content::in_language(content@, classification@.language_code),
            classification: classification@,
            confidence_json: confidence_json@,
            scraped_at: scraped_at,
        }),
        r.stats == stats,
        r.scraped_at == scraped_at,
{
    let latest_content: ExtractedContent = content::with_found_language(content, &classification);
    CrawledCreator {
        snapshot,
        stats,
        avg_views,
        median_views,
        latest_content,
        classification,
        confidence_json,
        scraped_at,
    }
}

/// What came of crawling a creator, once it is kept.
pub open spec fn is_kept(r: CrawlResult, handle: Seq<char>, outcome: RecordOutcome) -> bool {
    &&& r.handle@ == handle
    &&& !r.skipped_already_scraped
    &&& models::opt_text(r.promoted_app_name) == models::opt_text(outcome.promoted_app_name)
    &&& r.enqueued_following_count == outcome.enqueued_following_count
}

/// Keeps what a crawl found.
pub fn finish_crawl(
    db: &mut Database,
    handle: &str,
    creator: &CrawledCreator,
    options: RecordCreatorOptions,
    now: &str,
) -> (r: Result<CrawlResult, DbError>)
    requires
        old(db)@.wf(),
        creator.scraped_at.wf(),
        models::dates_wf(creator@.snapshot.videos),
    ensures
        final(db)@.wf(),
        exists|kept: Result<RecordOutcome, DbError>|
            {
                &&& #[trigger] record::record_result(
                    old(db)@,
                    final(db)@,
                    creator@,
                    options,
                    now@,
                    kept,
                )
                &&& match kept {
                    Ok(outcome) => r matches Ok(result) && is_kept(result, handle@, outcome),
                    Err(error) => r == Err::<CrawlResult, DbError>(error),
                }
            },
{
    let kept: Result<RecordOutcome, DbError> = db.record_creator_with_options(
        creator,
        options,
        now,
    );
    let ghost seen = kept;
    match kept {
        Err(error) => {
            assert(record::record_result(old(db)@, db@, creator@, options, now@, seen));
            Err(error)
        },
        Ok(outcome) => {
            let result: CrawlResult = CrawlResult {
                handle: handle.to_string(),
                skipped_already_scraped: false,
                promoted_app_name: outcome.promoted_app_name,
                enqueued_following_count: outcome.enqueued_following_count,
            };
            assert(record::record_result(old(db)@, db@, creator@, options, now@, seen));
            Ok(result)
        },
    }
}

// ---------------------------------------------------------------------------
// Which jobs a run takes
// ---------------------------------------------------------------------------
/// Which jobs a run takes.
pub struct QueueRunFilters {
    pub language_code: Option<String>,
    pub app_name: Option<String>,
    pub app_names: Vec<String>,
    pub country_codes: Vec<String>,
    pub handles: Vec<String>,
    pub whitelist_only: bool,
}

impl Default for QueueRunFilters {
    /// Every job.
    fn default() -> (r: QueueRunFilters)
        ensures
            r.language_code is None,
            r.app_name is None,
            r.app_names@.len() == 0,
            r.country_codes@.len() == 0,
            r.handles@.len() == 0,
            !r.whitelist_only,
    {
        QueueRunFilters {
            language_code: None,
            app_name: None,
            app_names: Vec::new(),
            country_codes: Vec::new(),
            handles: Vec::new(),
            whitelist_only: false,
        }
    }
}

impl QueueRunFilters {
    /// What the filters ask of a job.
    pub open spec fn asks(self) -> ClaimView {
        ClaimView {
            language: filters::language_filter(models::opt_text(self.language_code)),
            app: filters::app_filter(models::opt_text(self.app_name)),
            apps: filters::filter_values(search::texts(self.app_names@)),
            countries: filters::upper_values(search::texts(self.country_codes@)),
            handles: handles::normalized_handles(search::texts(self.handles@)),
            whitelist_only: self.whitelist_only,
        }
    }

    /// The filters for taking a job.
    pub fn claim_filters(&self) -> (r: QueueClaimFilters)
        ensures
            r@ == self.asks(),
    {
        QueueClaimFilters {
            language_code: models::copy_opt(&self.language_code),
            app_name: models::copy_opt(&self.app_name),
            app_names: models::copy_texts(&self.app_names),
            country_codes: models::copy_texts(&self.country_codes),
            handles: models::copy_texts(&self.handles),
            whitelist_only: self.whitelist_only,
        }
    }

    /// The filters of a run over jobs in one language or for one app.
    pub fn for_one(language_code: Option<String>, app_name: Option<String>) -> (r: QueueRunFilters)
        ensures
            models::opt_text(r.language_code) == models::opt_text(language_code),
            models::opt_text(r.app_name) == models::opt_text(app_name),
            r.app_names@.len() == 0,
            r.country_codes@.len() == 0,
            r.handles@.len() == 0,
            !r.whitelist_only,
    {
        QueueRunFilters {
            language_code,
            app_name,
            app_names: Vec::new(),
            country_codes: Vec::new(),
            handles: Vec::new(),
            whitelist_only: false,
        }
    }
}

// ---------------------------------------------------------------------------
// Items of frontier runs
// ---------------------------------------------------------------------------
/// Whether a known creator is crawled again: only seeds are, and only if that
/// is asked for.
pub fn frontier_force(refresh_seeds: bool, depth: u8) -> (r: bool)
    ensures
        r == (refresh_seeds && depth == 0),
{
    refresh_seeds && depth == 0
}

/// What follows from keeping a creator in a frontier run: nothing.
pub fn frontier_options() -> (r: RecordCreatorOptions)
    ensures
        r == (RecordCreatorOptions { enqueue_following: false, prune_no_app_children: false }),
{
    RecordCreatorOptions { enqueue_following: false, prune_no_app_children: false }
}

/// The accounts that an item of a run leads to.
pub open spec fn leads_to(db: DatabaseView, depth: u8, handle: Seq<char>) -> Seq<Seq<char>> {
    if depth < FRONTIER_DEPTH_LIMIT {
        record::followed(handle, creator_lists::accounts_of(db.follows, handle))
    } else {
        Seq::empty()
    }
}

/// The items after one of them was crawled: the accounts it leads to are in the
/// run, and the item is done.
pub open spec fn expanded(
    db: DatabaseView,
    run_id: i64,
    depth: u8,
    handle: Seq<char>,
    now: Seq<char>,
) -> Seq<ItemView> {
    frontier::with_deeper(
        db.items,
        run_id,
        (depth + 1) as u8,
        handle,
        leads_to(db, depth, handle),
        now,
    ).map_values(frontier::item_finished(run_id, handle, now))
}

/// Finishes an item of a run whose creator was crawled: as long as the run is
/// not at its depth, the accounts that the creator follows are put into it.
/// Returns how many of them are new.
pub fn finish_frontier_job(db: &mut Database, job: &FrontierJob, now: &str) -> (r: Result<
    usize,
    DbError,
>)
    requires
        old(db)@.wf(),
    ensures
        final(db)@.wf(),
        match handles::normalized_handle(job.handle@) {
            None => r == Err::<usize, DbError>(DbError::InvalidHandle) && final(db)@ == old(db)@,
            Some(h) => if leads_to(old(db)@, job.depth, h).len() > 0 && !rows::has_run(
                old(db)@.runs,
                job.run_id,
            ) {
                r == Err::<usize, DbError>(DbError::UnknownRun) && final(db)@ == old(db)@
            } else {
                let items = expanded(old(db)@, job.run_id, job.depth, h, now@);
                r == Ok::<usize, DbError>((items.len() - old(db)@.items.len()) as usize) && final(db)@ == (DatabaseView { items: items, ..old(db)@ })
            },
        },
{
    let mut inserted: usize = 0;
    if job.depth < FRONTIER_DEPTH_LIMIT {
        let accounts: Vec<String> = match db.list_following_handles(job.handle.as_str()) {
            Ok(accounts) => accounts,
            Err(error) => {
                return Err(error);
            },
        };
        inserted = match db.enqueue_frontier_following(
            job.run_id,
            job.handle.as_str(),
            job.depth + 1,
            &accounts,
            now,
        ) {
            Ok(inserted) => inserted,
            Err(error) => {
                return Err(error);
            },
        };
    } else {
        proof {
            if let Some(h) = handles::normalized_handle(job.handle@) {
                assert(frontier::with_deeper(
                    db@.items,
                    job.run_id,
                    (job.depth + 1) as u8,
                    h,
                    Seq::empty(),
                    now@,
                ) == db@.items);
            }
        }
    }
    match db.mark_frontier_item_done(job.run_id, job.handle.as_str(), now) {
        Ok(()) => Ok(inserted),
        Err(error) => Err(error),
    }
}

/// No item is deeper than a run goes.
pub open spec fn depths_bounded(items: Seq<ItemView>) -> bool {
    forall|i: int| 0 <= i < items.len() ==> (#[trigger] items[i]).depth <= FRONTIER_DEPTH_LIMIT
}

/// A frontier run never goes deeper than its limit: finishing an item keeps all
/// items within it.
pub proof fn law_frontier_depth_bounded(
    db: DatabaseView,
    run_id: i64,
    depth: u8,
    handle: Seq<char>,
    now: Seq<char>,
)
    requires
        depths_bounded(db.items),
    ensures
        depths_bounded(expanded(db, run_id, depth, handle, now)),
{
    let accounts = leads_to(db, depth, handle);
    let all = frontier::with_deeper(
        db.items,
        run_id,
        (depth + 1) as u8,
        handle,
        accounts,
        now,
    );
    frontier::law_deeper_adds_only(
        db.items,
        run_id,
        (depth + 1) as u8,
        handle,
        accounts,
        now,
    );
    assert forall|i: int| 0 <= i < all.len() implies (#[trigger] all[i]).depth
        <= FRONTIER_DEPTH_LIMIT by {
        if i < db.items.len() {
            assert(all.take(db.items.len() as int)[i] == db.items[i]);
            assert(all[i] == db.items[i]);
        } else {
            assert(accounts.contains(all[i].handle));
        }
    }
}

/// A seed that was just kept leads to exactly the accounts that the crawl found
/// it to follow.
pub proof fn law_frontier_expands_to_followed(
    db: DatabaseView,
    crawl: CrawlView,
    handle: Seq<char>,
    options: RecordCreatorOptions,
    now: Seq<char>,
)
    ensures
        leads_to(record::recorded(db, crawl, handle, options, now), 0, handle) == record::followed(
            handle,
            crawl.snapshot.following,
        ),
{
    let accounts = record::followed(handle, crawl.snapshot.following);
    let other = handle.push('x');
    assert(other.len() != handle.len());
    record_laws::law_recorded_follows_read_back(db, crawl, handle, options, now, other);
    record_laws::lemma_followed(handle, crawl.snapshot.following);
    let named = accounts.map_values(|s: Seq<char>| handles::normalized_handle(s));
    assert(named =~= accounts.map_values(|s: Seq<char>| Some(s))) by {
        assert forall|i: int| 0 <= i < accounts.len() implies handles::normalized_handle(
            #[trigger] accounts[i],
        ) == Some(accounts[i]) by {
            handles::law_handle_names_itself(accounts[i]);
        }
    }
    lists::lemma_present_all(accounts);
    order::lemma_sorted_set_of_ascending(accounts);
    record_laws::lemma_filter_all(accounts, record::other_than(handle));
}

// ---------------------------------------------------------------------------
// Countries
// ---------------------------------------------------------------------------
/// What is noted where a profile names no country.
pub const NO_REGION_NOTE: &'static str = "profile region was missing";

/// What was found of the countries of creators.
#[derive(Debug, Clone, Copy, PartialEq, Eq, Structural)]
pub struct CountryBackfillSummary {
    pub checked: usize,
    pub updated: usize,
    pub unresolved: usize,
}

impl CountryBackfillSummary {
    /// Every creator that was checked has a country or has none.
    pub open spec fn wf(self) -> bool {
        self.checked == self.updated + self.unresolved
    }

    /// Notes one more creator.
    pub fn note(&mut self, updated: bool)
        requires
            old(self).wf(),
            old(self).checked < usize::MAX,
        ensures
            final(self).wf(),
            final(self).checked == old(self).checked + 1,
            final(self).updated == old(self).updated + if updated {
                1int
            } else {
                0
            },
    {
        self.checked = self.checked + 1;
        if updated {
            self.updated = self.updated + 1;
        } else {
            self.unresolved = self.unresolved + 1;
        }
    }
}

impl Default for CountryBackfillSummary {
    /// Nobody was checked.
    fn default() -> (r: CountryBackfillSummary)
        ensures
            r.wf(),
            r.checked == 0,
    {
        CountryBackfillSummary { checked: 0, updated: 0, unresolved: 0 }
    }
}

/// What the profile of a creator said of the country.
pub enum CountryReply {
    Country(String),
    Nothing,
    Error(String),
}

/// The country that is kept of a reply.
pub open spec fn replied_country(reply: CountryReply) -> Option<Seq<char>> {
    match reply {
        CountryReply::Country(code) => Some(code@),
        _ => None,
    }
}

/// The note that is kept of a reply.
pub open spec fn replied_note(reply: CountryReply) -> Option<Seq<char>> {
    match reply {
        CountryReply::Country(_) => None,
        CountryReply::Nothing => Some(NO_REGION_NOTE@),
        CountryReply::Error(error) => Some(error@),
    }
}

/// Keeps what the profile of a creator said of the country. Returns whether it
/// named one.
pub fn record_country_reply(db: &mut Database, handle: &str, reply: &CountryReply, now: &str) -> (r:
    Result<bool, DbError>)
    requires
        old(db)@.wf(),
    ensures
        final(db)@.wf(),
        match handles::normalized_handle(handle@) {
            None => r == Err::<bool, DbError>(DbError::InvalidHandle) && final(db)@ == old(db)@,
            Some(h) => if !rows::has_creator(old(db)@.creators, h) {
                r == Err::<bool, DbError>(DbError::CreatorNotFound) && final(db)@ == old(db)@
            } else {
                r == Ok::<bool, DbError>(reply is Country) && final(db)@ == (DatabaseView {
                    creators: old(db)@.creators.map_values(
                        creators::looked_up(
                            h,
                            creators::kept_country(replied_country(*reply)),
                            creators::kept_error(replied_note(*reply)),
                            now@,
                        ),
                    ),
                    ..old(db)@
                })
            },
        },
{
    let done: Result<(), DbError> = match reply {
        CountryReply::Country(code) => db.record_creator_country_lookup(
            handle,
            Some(code.as_str()),
            None,
            now,
        ),
        CountryReply::Nothing => db.record_creator_country_lookup(
            handle,
            None,
            Some(NO_REGION_NOTE),
            now,
        ),
        CountryReply::Error(error) => db.record_creator_country_lookup(
            handle,
            None,
            Some(error.as_str()),
            now,
        ),
    };
    match done {
        Ok(()) => Ok(
            match reply {
                CountryReply::Country(_) => true,
                _ => false,
            },
        ),
        Err(error) => Err(error),
    }
}

} // verus!
