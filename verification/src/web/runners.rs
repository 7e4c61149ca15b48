//! Which runs are going on. A run over the queue and a frontier run are never
//! going on at the same time.

use vstd::prelude::*;
use crate::crawler::jobs::{QueueRunFilters, FRONTIER_DEPTH_LIMIT};
use crate::crawler::run;
use crate::crawler::run::RunSummary;
use crate::db::filters;
use crate::db::filters::DbError;
use crate::db::frontier;
use crate::db::frontier::FrontierRunFinish;
use crate::db::queue;
use crate::db::rows::{Database, DatabaseView};
use crate::handles;
use crate::models;
use crate::search;
use crate::web::requests;
use crate::web::requests::ApiError;

verus! {

/// How many creators a run works on at once, unless the request says so.
pub const USUAL_CONCURRENCY: usize = 10;

/// How many creators a run can work on at once.
pub const MOST_CONCURRENCY: usize = 25;

/// The state of the runs over the queue.
pub struct RunnerState {
    pub running: bool,
    pub stopping: bool,
    pub started_at: Option<String>,
    pub finished_at: Option<String>,
    pub country_codes: Vec<String>,
    pub app_names: Vec<String>,
    pub handles: Vec<String>,
    pub whitelist_only: bool,
    pub limit: Option<usize>,
    pub concurrency: usize,
    pub last_summary: Option<RunSummary>,
    pub last_error: Option<String>,
}

/// The state of the frontier runs.
pub struct FrontierRunnerState {
    pub running: bool,
    pub stopping: bool,
    pub started_at: Option<String>,
    pub finished_at: Option<String>,
    pub run_id: Option<i64>,
    pub limit: Option<usize>,
    pub concurrency: usize,
    pub refresh_seeds: bool,
    pub last_summary: Option<RunSummary>,
    pub last_error: Option<String>,
}

/// The state of all runs.
pub struct Runners {
    pub queue: RunnerState,
    pub frontier: FrontierRunnerState,
}

/// A request for a run over the queue.
pub struct RunRequest {
    pub concurrency: Option<usize>,
    pub limit: Option<usize>,
    pub countries: Option<Vec<String>>,
    pub apps: Option<Vec<String>>,
    pub handles: Option<Vec<String>>,
    pub whitelist_only: Option<bool>,
}

/// A request for a frontier run.
pub struct FrontierRunRequest {
    pub concurrency: Option<usize>,
    pub limit: Option<usize>,
    pub refresh_seeds: Option<bool>,
}

/// A run over the queue that begins.
pub struct QueueRunPlan {
    pub limit: Option<usize>,
    pub concurrency: usize,
    pub filters: QueueRunFilters,
}

/// A frontier run that begins.
pub struct FrontierRunPlan {
    pub run_id: i64,
    pub limit: Option<usize>,
    pub concurrency: usize,
    pub refresh_seeds: bool,
}

/// How many creators a run works on at once.
pub open spec fn asked_concurrency(n: Option<usize>) -> usize {
    run::clamped(requests::or_number(n, USUAL_CONCURRENCY), 1, MOST_CONCURRENCY)
}

fn concurrency_of(n: Option<usize>) -> (r: usize)
    ensures
        r == asked_concurrency(n),
        1 <= r <= MOST_CONCURRENCY,
{
    run::clamp(
        match n {
            Some(n) => n,
            None => USUAL_CONCURRENCY,
        },
        1,
        MOST_CONCURRENCY,
    )
}

fn given_or_none(list: &Option<Vec<String>>) -> (r: Vec<String>)
    ensures
        search::texts(r@) == requests::listed_handles(*list),
{
    match list {
        Some(list) => models::copy_texts(list),
        None => {
            let r: Vec<String> = Vec::new();
            assert(search::texts(r@) =~= Seq::<Seq<char>>::empty());
            r
        },
    }
}

impl RunRequest {
    /// The countries that the request names.
    pub open spec fn asked_countries(self) -> Seq<Seq<char>> {
        requests::request_values(requests::listed_handles(self.countries), true)
    }

    /// The apps that the request names.
    pub open spec fn asked_apps(self) -> Seq<Seq<char>> {
        requests::request_values(requests::listed_handles(self.apps), false)
    }

    /// The handles that the request names, as it names them.
    pub open spec fn asked_handles(self) -> Seq<Seq<char>> {
        requests::listed_handles(self.handles)
    }

    /// Only jobs for apps on the white list are taken: unless the request says
    /// so, where it names neither handles nor apps.
    pub open spec fn asks_whitelist(self) -> bool {
        match self.whitelist_only {
            Some(only) => only,
            None => self.asked_handles().len() == 0 && self.asked_apps().len() == 0,
        }
    }

    /// The plan carries out the request.
    pub open spec fn is_planned(self, plan: QueueRunPlan) -> bool {
        &&& plan.limit == self.limit
        &&& plan.concurrency == asked_concurrency(self.concurrency)
        &&& plan.filters.language_code is None
        &&& plan.filters.app_name is None
        &&& search::texts(plan.filters.app_names@) == self.asked_apps()
        &&& search::texts(plan.filters.country_codes@) == self.asked_countries()
        &&& search::texts(plan.filters.handles@) == self.asked_handles()
        &&& plan.filters.whitelist_only == self.asks_whitelist()
    }
}

impl RunnerState {
    /// A run over the queue for the request has begun.
    pub open spec fn is_begun(self, request: RunRequest, now: Seq<char>) -> bool {
        &&& self.running
        &&& !self.stopping
        &&& models::opt_text(self.started_at) == Some(now)
        &&& self.finished_at is None
        &&& search::texts(self.country_codes@) == request.asked_countries()
        &&& search::texts(self.app_names@) == request.asked_apps()
        &&& search::texts(self.handles@) == request.asked_handles()
        &&& self.whitelist_only == request.asks_whitelist()
        &&& self.limit == request.limit
        &&& self.concurrency == asked_concurrency(request.concurrency)
        &&& self.last_summary is None
        &&& self.last_error is None
    }
}

impl FrontierRunnerState {
    /// A frontier run for the request has begun.
    pub open spec fn is_begun(
        self,
        request: FrontierRunRequest,
        run_id: i64,
        now: Seq<char>,
    ) -> bool {
        &&& self.running
        &&& !self.stopping
        &&& models::opt_text(self.started_at) == Some(now)
        &&& self.finished_at is None
        &&& self.run_id == Some(run_id)
        &&& self.limit == request.limit
        &&& self.concurrency == asked_concurrency(request.concurrency)
        &&& self.refresh_seeds == request.asks_refresh()
        &&& self.last_summary is None
        &&& self.last_error is None
    }
}

impl FrontierRunRequest {
    /// Seeds that are known are crawled again, unless the request says
    /// otherwise.
    pub open spec fn asks_refresh(self) -> bool {
        match self.refresh_seeds {
            Some(refresh) => refresh,
            None => true,
        }
    }

    /// The plan carries out the request.
    pub open spec fn is_planned(self, plan: FrontierRunPlan, run_id: i64) -> bool {
        &&& plan.run_id == run_id
        &&& plan.limit == self.limit
        &&& plan.concurrency == asked_concurrency(self.concurrency)
        &&& plan.refresh_seeds == self.asks_refresh()
    }
}

/// The jobs after the handles of a request were put first.
pub open spec fn put_first(db: DatabaseView, wanted: Seq<Seq<char>>, now: Seq<char>) -> DatabaseView {
    if wanted.len() == 0 {
        db
    } else {
        DatabaseView {
            queue: queue::with_all_first(
                db.creators,
                db.queue,
                handles::normalized_handles(wanted),
                now,
            ),
            ..db
        }
    }
}

/// What a run came to.
pub enum RunResult {
    Completed(RunSummary),
    Failed(String),
}

pub open spec fn summary_of(result: RunResult) -> Option<RunSummary> {
    match result {
        RunResult::Completed(summary) => Some(summary),
        RunResult::Failed(_) => None,
    }
}

pub open spec fn error_of(result: RunResult) -> Option<Seq<char>> {
    match result {
        RunResult::Completed(_) => None,
        RunResult::Failed(error) => Some(error@),
    }
}

/// The end of a frontier run, as it is kept: a run that came to its end was
/// stopped or completed, and one that failed says why.
pub fn frontier_finish<'a>(result: &'a RunResult, stopped: bool) -> (r: FrontierRunFinish<'a>)
    ensures
        match *result {
            RunResult::Completed(summary) => r.status@ == (if stopped {
                "stopped"@
            } else {
                "completed"@
            }) && r.processed == summary.processed && r.succeeded == summary.succeeded && r.failed
                == summary.failed && r.skipped == summary.skipped && r.last_error is None,
            RunResult::Failed(error) => r.status@ == "failed"@ && r.processed == 0 && r.succeeded
                == 0 && r.failed == 0 && r.skipped == 0 && filters::opt_str(r.last_error) == Some(error@),
        },
{
    match result {
        RunResult::Completed(summary) => FrontierRunFinish {
            status: if stopped {
                "stopped"
            } else {
                "completed"
            },
            processed: summary.processed,
            succeeded: summary.succeeded,
            failed: summary.failed,
            skipped: summary.skipped,
            last_error: None,
        },
        RunResult::Failed(error) => FrontierRunFinish {
            status: "failed",
            processed: 0,
            succeeded: 0,
            failed: 0,
            skipped: 0,
            last_error: Some(error.as_str()),
        },
    }
}

impl Runners {
    /// At most one run is going on, and only a run that is going on is being
    /// stopped.
    pub open spec fn wf(self) -> bool {
        &&& !(self.queue.running && self.frontier.running)
        &&& self.queue.stopping ==> self.queue.running
        &&& self.frontier.stopping ==> self.frontier.running
    }

    /// No run is going on.
    pub fn new() -> (r: Runners)
        ensures
            r.wf(),
            !r.queue.running,
            r.queue.started_at is None,
            r.queue.finished_at is None,
            r.queue.country_codes@.len() == 0,
            r.queue.app_names@.len() == 0,
            r.queue.handles@.len() == 0,
            !r.queue.whitelist_only,
            r.queue.limit is None,
            r.queue.concurrency == USUAL_CONCURRENCY,
            r.queue.last_summary is None,
            r.queue.last_error is None,
            r.frontier == (FrontierRunnerState {
                running: false,
                stopping: false,
                started_at: None,
                finished_at: None,
                run_id: None,
                limit: None,
                concurrency: USUAL_CONCURRENCY,
                refresh_seeds: true,
                last_summary: None,
                last_error: None,
            }),
    {
        Runners {
            queue: RunnerState {
                running: false,
                stopping: false,
                started_at: None,
                finished_at: None,
                country_codes: Vec::new(),
                app_names: Vec::new(),
                handles: Vec::new(),
                whitelist_only: false,
                limit: None,
                concurrency: USUAL_CONCURRENCY,
                last_summary: None,
                last_error: None,
            },
            frontier: FrontierRunnerState {
                running: false,
                stopping: false,
                started_at: None,
                finished_at: None,
                run_id: None,
                limit: None,
                concurrency: USUAL_CONCURRENCY,
                refresh_seeds: true,
                last_summary: None,
                last_error: None,
            },
        }
    }

    /// Begins a run over the queue, unless a run is going on. The creators that
    /// the request names are put first, unless a frontier run is going on.
    pub fn start_queue_run(&mut self, db: &mut Database, request: &RunRequest, now: &str) -> (r:
        Result<QueueRunPlan, ApiError>)
        requires
            old(self).wf(),
            old(db)@.wf(),
        ensures
            final(self).wf(),
            final(db)@.wf(),
            final(self).frontier == old(self).frontier,
            if old(self).frontier.running {
                r == Err::<QueueRunPlan, ApiError>(ApiError::FrontierRunning) && final(db)@ == old(db)@ && final(self).queue == old(self).queue
            } else {
                &&& final(db)@ == put_first(old(db)@, request.asked_handles(), now@)
                &&& if old(self).queue.running {
                    r == Err::<QueueRunPlan, ApiError>(ApiError::ScraperRunning) && final(self).queue == old(self).queue
                } else {
                    r matches Ok(plan) && request.is_planned(plan) && final(self).queue.is_begun(
                        *request,
                        now@,
                    )
                }
            },
    {
        if self.frontier.running {
            return Err(ApiError::FrontierRunning);
        }
        let concurrency: usize = concurrency_of(request.concurrency);
        let countries: Vec<String> = requests::normalize_request_values(
            &given_or_none(&request.countries),
            true,
        );
        let apps: Vec<String> = requests::normalize_request_values(
            &given_or_none(&request.apps),
            false,
        );
        let wanted: Vec<String> = given_or_none(&request.handles);
        assert(search::texts(wanted@).len() == wanted@.len());
        assert(search::texts(apps@).len() == apps@.len());
        if wanted.len() > 0 {
            let _added: usize = db.prioritize_handles(&wanted, now);
        }
        let whitelist_only: bool = match request.whitelist_only {
            Some(only) => only,
            None => wanted.len() == 0 && apps.len() == 0,
        };
        if self.queue.running {
            return Err(ApiError::ScraperRunning);
        }
        self.queue = RunnerState {
            running: true,
            stopping: false,
            started_at: Some(now.to_string()),
            finished_at: None,
            country_codes: models::copy_texts(&countries),
            app_names: models::copy_texts(&apps),
            handles: models::copy_texts(&wanted),
            whitelist_only,
            limit: request.limit,
            concurrency,
            last_summary: None,
            last_error: None,
        };
        Ok(
            QueueRunPlan {
                limit: request.limit,
                concurrency,
                filters: QueueRunFilters {
                    language_code: None,
                    app_name: None,
                    app_names: apps,
                    country_codes: countries,
                    handles: wanted,
                    whitelist_only,
                },
            },
        )
    }

    /// Begins a frontier run from the seeds, unless a run is going on.
    pub fn start_frontier_run(
        &mut self,
        db: &mut Database,
        request: &FrontierRunRequest,
        now: &str,
    ) -> (r: Result<FrontierRunPlan, ApiError>)
        requires
            old(self).wf(),
            old(db)@.wf(),
        ensures
            final(self).wf(),
            final(db)@.wf(),
            final(self).queue == old(self).queue,
            if old(self).queue.running {
                r == Err::<FrontierRunPlan, ApiError>(ApiError::QueueRunning) && final(db)@ == old(db)@ && final(self).frontier == old(self).frontier
            } else if old(self).frontier.running {
                r == Err::<FrontierRunPlan, ApiError>(ApiError::FrontierRunning) && final(db)@
                    == old(db)@ && final(self).frontier == old(self).frontier
            } else if old(db)@.bucket.len() == 0 {
                r == Err::<FrontierRunPlan, ApiError>(
                    ApiError::Database(DbError::EmptyBucket),
                ) && final(db)@ == old(db)@ && final(self).frontier == old(self).frontier
            } else if frontier::greatest_id(old(db)@.runs) == i64::MAX {
                r == Err::<FrontierRunPlan, ApiError>(
                    ApiError::Database(DbError::NoRunNumber),
                ) && final(db)@ == old(db)@ && final(self).frontier == old(self).frontier
            } else {
                &&& final(db)@ == frontier::started(old(db)@, FRONTIER_DEPTH_LIMIT, now@)
                &&& r matches Ok(plan)
                &&& request.is_planned(plan, frontier::next_id(old(db)@.runs))
                &&& final(self).frontier.is_begun(
                    *request,
                    frontier::next_id(old(db)@.runs),
                    now@,
                )
            },
    {
        if self.queue.running {
            return Err(ApiError::QueueRunning);
        }
        if self.frontier.running {
            return Err(ApiError::FrontierRunning);
        }
        let concurrency: usize = concurrency_of(request.concurrency);
        let refresh_seeds: bool = match request.refresh_seeds {
            Some(refresh) => refresh,
            None => true,
        };
        let run_id: i64 = match db.create_frontier_run_from_bucket(FRONTIER_DEPTH_LIMIT, now) {
            Ok(run) => run.id,
            Err(error) => {
                return Err(ApiError::Database(error));
            },
        };
        self.frontier = FrontierRunnerState {
            running: true,
            stopping: false,
            started_at: Some(now.to_string()),
            finished_at: None,
            run_id: Some(run_id),
            limit: request.limit,
            concurrency,
            refresh_seeds,
            last_summary: None,
            last_error: None,
        };
        Ok(FrontierRunPlan { run_id, limit: request.limit, concurrency, refresh_seeds })
    }

    /// Asks the run over the queue to stop. Returns whether one is going on.
    pub fn stop_queue_run(&mut self) -> (r: bool)
        requires
            old(self).wf(),
        ensures
            final(self).wf(),
            r == old(self).queue.running,
            *final(self) == (Runners {
                queue: RunnerState {
                    stopping: old(self).queue.running,
                    ..old(self).queue
                },
                ..*old(self)
            }),
    {
        if self.queue.running {
            self.queue.stopping = true;
        }
        self.queue.running
    }

    /// Asks the frontier run to stop. Returns whether one is going on.
    pub fn stop_frontier_run(&mut self) -> (r: bool)
        requires
            old(self).wf(),
        ensures
            final(self).wf(),
            r == old(self).frontier.running,
            *final(self) == (Runners {
                frontier: FrontierRunnerState {
                    stopping: old(self).frontier.running,
                    ..old(self).frontier
                },
                ..*old(self)
            }),
    {
        if self.frontier.running {
            self.frontier.stopping = true;
        }
        self.frontier.running
    }

    /// Notes that the run over the queue has ended.
    pub fn queue_run_ended(&mut self, result: RunResult, now: &str)
        requires
            old(self).wf(),
        ensures
            final(self).wf(),
            final(self).frontier == old(self).frontier,
            !final(self).queue.running,
            !final(self).queue.stopping,
            models::opt_text(final(self).queue.finished_at) == Some(now@),
            final(self).queue.last_summary == summary_of(result),
            models::opt_text(final(self).queue.last_error) == error_of(result),
            final(self).queue.started_at == old(self).queue.started_at,
            final(self).queue.country_codes == old(self).queue.country_codes,
            final(self).queue.app_names == old(self).queue.app_names,
            final(self).queue.handles == old(self).queue.handles,
            final(self).queue.whitelist_only == old(self).queue.whitelist_only,
            final(self).queue.limit == old(self).queue.limit,
            final(self).queue.concurrency == old(self).queue.concurrency,
    {
        self.queue.running = false;
        self.queue.stopping = false;
        self.queue.finished_at = Some(now.to_string());
        match result {
            RunResult::Completed(summary) => {
                self.queue.last_summary = Some(summary);
                self.queue.last_error = None;
            },
            RunResult::Failed(error) => {
                self.queue.last_summary = None;
                self.queue.last_error = Some(error);
            },
        }
    }

    /// Notes that the frontier run has ended; `not_kept` says why its end could
    /// not be kept, if it could not.
    pub fn frontier_run_ended(&mut self, result: RunResult, not_kept: Option<String>, now: &str)
        requires
            old(self).wf(),
        ensures
            final(self).wf(),
            final(self).queue == old(self).queue,
            !final(self).frontier.running,
            !final(self).frontier.stopping,
            models::opt_text(final(self).frontier.finished_at) == Some(now@),
            final(self).frontier.last_summary == summary_of(result),
            models::opt_text(final(self).frontier.last_error) == (match result {
                RunResult::Completed(_) => models::opt_text(not_kept),
                RunResult::Failed(error) => Some(error@),
            }),
            final(self).frontier.started_at == old(self).frontier.started_at,
            final(self).frontier.run_id == old(self).frontier.run_id,
            final(self).frontier.limit == old(self).frontier.limit,
            final(self).frontier.concurrency == old(self).frontier.concurrency,
            final(self).frontier.refresh_seeds == old(self).frontier.refresh_seeds,
    {
        self.frontier.running = false;
        self.frontier.stopping = false;
        self.frontier.finished_at = Some(now.to_string());
        match result {
            RunResult::Completed(summary) => {
                self.frontier.last_summary = Some(summary);
                self.frontier.last_error = not_kept;
            },
            RunResult::Failed(error) => {
                self.frontier.last_summary = None;
                self.frontier.last_error = Some(error);
            },
        }
    }
}

} // verus!
