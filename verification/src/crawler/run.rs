//! Runs: crawling one batch of creators after another.

use vstd::prelude::*;

verus! {

/// How long a run waits for new jobs, in seconds.
pub const WATCH_SECONDS: u64 = 30;

/// What a run has done.
#[derive(Debug, Clone, Copy, PartialEq, Eq, Structural)]
pub struct RunSummary {
    pub processed: usize,
    pub succeeded: usize,
    pub failed: usize,
    pub skipped: usize,
}

impl RunSummary {
    /// Every creator that was processed succeeded, failed or was skipped.
    pub open spec fn wf(self) -> bool {
        self.processed == self.succeeded + self.failed + self.skipped
    }
}

impl Default for RunSummary {
    /// Nothing was done.
    fn default() -> (r: RunSummary)
        ensures
            r.wf(),
            r.processed == 0,
    {
        RunSummary { processed: 0, succeeded: 0, failed: 0, skipped: 0 }
    }
}

/// What came of one creator.
#[derive(Debug, Clone, Copy, PartialEq, Eq, Structural)]
pub enum CrawlOutcome {
    Succeeded,
    Skipped,
    Failed,
}

/// The summary after one more creator.
pub open spec fn counted(s: RunSummary, outcome: CrawlOutcome) -> RunSummary {
    match outcome {
        CrawlOutcome::Succeeded => RunSummary {
            processed: (s.processed + 1) as usize,
            succeeded: (s.succeeded + 1) as usize,
            ..s
        },
        CrawlOutcome::Skipped => RunSummary {
            processed: (s.processed + 1) as usize,
            skipped: (s.skipped + 1) as usize,
            ..s
        },
        CrawlOutcome::Failed => RunSummary {
            processed: (s.processed + 1) as usize,
            failed: (s.failed + 1) as usize,
            ..s
        },
    }
}

/// Where a run stands.
#[derive(Debug, Clone, Copy, PartialEq, Eq, Structural)]
pub enum Phase {
    /// The next batch has not begun.
    Idle,
    /// Jobs are taken for a batch.
    Claiming { size: usize, claimed: usize },
    /// The jobs of a batch are worked on.
    Crawling { left: usize },
    /// The run has ended.
    Finished,
}

/// What a run does next.
#[derive(Debug, Clone, Copy, PartialEq, Eq, Structural)]
pub enum RunAction {
    /// Take jobs for a batch.
    Claim,
    /// Work on the jobs that were taken.
    Crawl,
    /// Wait for new jobs, and begin again.
    Wait,
    /// End.
    Finish,
}

/// A run over jobs.
pub struct Run {
    pub limit: Option<usize>,
    pub concurrency: usize,
    pub watch: bool,
    pub summary: RunSummary,
    pub phase: Phase,
}

/// How many creators may still be processed.
pub open spec fn within_limit(limit: Option<usize>, n: int) -> bool {
    match limit {
        Some(limit) => n <= limit,
        None => true,
    }
}

/// The size of the next batch: as many jobs as are worked on at once, but no
/// more than the limit leaves.
pub open spec fn batch_size(limit: Option<usize>, concurrency: usize, processed: usize) -> int {
    match limit {
        Some(limit) => if limit - processed < concurrency {
            limit - processed
        } else {
            concurrency as int
        },
        None => concurrency as int,
    }
}

impl Run {
    /// A run works on at least one job at once, its summary adds up, and what
    /// it has processed and taken stays within the limit.
    pub open spec fn wf(self) -> bool {
        &&& self.concurrency >= 1
        &&& self.summary.wf()
        &&& within_limit(self.limit, self.summary.processed as int)
        &&& match self.phase {
            Phase::Claiming { size, claimed } => {
                &&& claimed <= size
                &&& 1 <= size <= self.concurrency
                &&& within_limit(self.limit, self.summary.processed + size)
            },
            Phase::Crawling { left } => {
                &&& 1 <= left <= self.concurrency
                &&& within_limit(self.limit, self.summary.processed + left)
            },
            _ => true,
        }
    }

    /// A run that has done nothing.
    pub fn new(limit: Option<usize>, concurrency: usize, watch: bool) -> (r: Run)
        ensures
            r.wf(),
            r.limit == limit,
            r.concurrency == if concurrency >= 1 {
                concurrency
            } else {
                1
            },
            r.watch == watch,
            r.summary == (RunSummary { processed: 0, succeeded: 0, failed: 0, skipped: 0 }),
            r.phase == Phase::Idle,
    {
        Run {
            limit,
            concurrency: if concurrency >= 1 {
                concurrency
            } else {
                1
            },
            watch,
            summary: RunSummary { processed: 0, succeeded: 0, failed: 0, skipped: 0 },
            phase: Phase::Idle,
        }
    }

    /// Whether the limit is reached.
    pub open spec fn is_full(self) -> bool {
        match self.limit {
            Some(limit) => self.summary.processed >= limit,
            None => false,
        }
    }

    /// Begins a batch, unless a stop was asked for or the limit is reached.
    pub fn begin(&mut self, stop: bool) -> (r: RunAction)
        requires
            old(self).wf(),
            old(self).phase == Phase::Idle,
        ensures
            final(self).wf(),
            if stop || old(self).is_full() {
                r == RunAction::Finish && *final(self) == (Run {
                    phase: Phase::Finished,
                    ..*old(self)
                })
            } else {
                r == RunAction::Claim && *final(self) == (Run {
                    phase: Phase::Claiming {
                        size: batch_size(
                            old(self).limit,
                            old(self).concurrency,
                            old(self).summary.processed,
                        ) as usize,
                        claimed: 0,
                    },
                    ..*old(self)
                })
            },
    {
        let full: bool = match self.limit {
            Some(limit) => self.summary.processed >= limit,
            None => false,
        };
        if stop || full {
            self.phase = Phase::Finished;
            return RunAction::Finish;
        }
        let size: usize = match self.limit {
            Some(limit) => if limit - self.summary.processed < self.concurrency {
                limit - self.summary.processed
            } else {
                self.concurrency
            },
            None => self.concurrency,
        };
        self.phase = Phase::Claiming { size, claimed: 0 };
        RunAction::Claim
    }

    /// Whether another job is to be taken for the batch.
    pub fn wants_job(&self, stop: bool) -> (r: bool)
        ensures
            r == (!stop && match self.phase {
                Phase::Claiming { size, claimed } => claimed < size,
                _ => false,
            }),
    {
        match self.phase {
            Phase::Claiming { size, claimed } => !stop && claimed < size,
            _ => false,
        }
    }

    /// Notes that a job was taken for the batch.
    pub fn job_taken(&mut self)
        requires
            old(self).wf(),
            old(self).phase matches Phase::Claiming { size, claimed } && claimed < size,
        ensures
            final(self).wf(),
            old(self).phase matches Phase::Claiming { size, claimed } && *final(self) == (Run {
                phase: Phase::Claiming { size, claimed: (claimed + 1) as usize },
                ..*old(self)
            }),
    {
        if let Phase::Claiming { size, claimed } = self.phase {
            self.phase = Phase::Claiming { size, claimed: claimed + 1 };
        }
    }

    /// Ends the taking of jobs: the jobs of the batch are worked on; where there
    /// are none, the run waits if it watches the queue, and ends otherwise.
    pub fn batch_complete(&mut self) -> (r: RunAction)
        requires
            old(self).wf(),
            old(self).phase is Claiming,
        ensures
            final(self).wf(),
            old(self).phase matches Phase::Claiming { size, claimed } && if claimed > 0 {
                r == RunAction::Crawl && *final(self) == (Run {
                    phase: Phase::Crawling { left: claimed },
                    ..*old(self)
                })
            } else if old(self).watch {
                r == RunAction::Wait && *final(self) == (Run { phase: Phase::Idle, ..*old(self) })
            } else {
                r == RunAction::Finish && *final(self) == (Run {
                    phase: Phase::Finished,
                    ..*old(self)
                })
            },
    {
        let taken: usize = match self.phase {
            Phase::Claiming { size: _, claimed } => claimed,
            _ => 0,
        };
        if taken > 0 {
            self.phase = Phase::Crawling { left: taken };
            RunAction::Crawl
        } else if self.watch {
            self.phase = Phase::Idle;
            RunAction::Wait
        } else {
            self.phase = Phase::Finished;
            RunAction::Finish
        }
    }

    /// Notes what came of one creator of the batch; after the last of them the
    /// next batch can begin.
    pub fn crawled(&mut self, outcome: CrawlOutcome)
        requires
            old(self).wf(),
            old(self).phase is Crawling,
            old(self).summary.processed < usize::MAX,
        ensures
            final(self).wf(),
            old(self).phase matches Phase::Crawling { left } && *final(self) == (Run {
                summary: counted(old(self).summary, outcome),
                phase: if left > 1 {
                    Phase::Crawling { left: (left - 1) as usize }
                } else {
                    Phase::Idle
                },
                ..*old(self)
            }),
    {
        self.summary.processed = self.summary.processed + 1;
        match outcome {
            CrawlOutcome::Succeeded => {
                self.summary.succeeded = self.summary.succeeded + 1;
            },
            CrawlOutcome::Skipped => {
                self.summary.skipped = self.summary.skipped + 1;
            },
            CrawlOutcome::Failed => {
                self.summary.failed = self.summary.failed + 1;
            },
        }
        if let Phase::Crawling { left } = self.phase {
            self.phase = if left > 1 {
                Phase::Crawling { left: left - 1 }
            } else {
                Phase::Idle
            };
        }
    }
}

/// Counting a creator keeps a summary adding up, and counts one creator.
pub proof fn law_summary_adds_up(s: RunSummary, outcome: CrawlOutcome)
    requires
        s.wf(),
        s.processed < usize::MAX,
    ensures
        counted(s, outcome).wf(),
        counted(s, outcome).processed == s.processed + 1,
{
}

/// A run never processes more creators than its limit, whatever it is doing,
/// and the creators it has taken and not yet finished fit in what is left.
pub proof fn law_run_stays_within_limit(run: Run, limit: usize)
    requires
        run.wf(),
        run.limit == Some(limit),
    ensures
        run.summary.processed <= limit,
        run.phase matches Phase::Claiming { size, claimed } ==> run.summary.processed + claimed
            <= limit,
        run.phase matches Phase::Crawling { left } ==> run.summary.processed + left <= limit,
        run.summary.succeeded + run.summary.failed + run.summary.skipped <= limit,
{
}

// ---------------------------------------------------------------------------
// Numbers that requests give
// ---------------------------------------------------------------------------
/// The number moved into the range.
pub open spec fn clamped(n: usize, low: usize, high: usize) -> usize {
    if n < low {
        low
    } else if n > high {
        high
    } else {
        n
    }
}

/// The number moved into the range.
pub fn clamp(n: usize, low: usize, high: usize) -> (r: usize)
    ensures
        r == clamped(n, low, high),
        low <= high ==> low <= r <= high,
{
    if n < low {
        low
    } else if n > high {
        high
    } else {
        n
    }
}

} // verus!
