//! Lists of jobs, and how many there are.

use vstd::prelude::*;
use crate::db::filters;
use crate::db::items::{QueueShown, QueueStatusCount, QueueViewItem, StatusCountView};
use crate::db::joins;
use crate::db::joins::{JoinedJob, JoinedView};
use crate::db::queue;
use crate::db::queue::Turn;
use crate::db::rows::{
    AppPolicy, CreatorRow, CreatorView, Database, DatabaseView, JobStatus, QueueRow, QueueView,
};
use crate::db::table;
use crate::db::table::{RowDisplay, RowKey, RowTest};
use crate::lists;
use crate::models;
use crate::models::{QueueItem, QueueItemView};
use crate::ranking;
use crate::ranking::{SortValue, SortView};
use crate::text;

verus! {

/// The greatest number of rows that a list of jobs shows.
pub const LIST_LIMIT: usize = 1000;

/// The smaller of the two.
pub open spec fn at_most(limit: usize, max: usize) -> nat {
    if limit <= max {
        limit as nat
    } else {
        max as nat
    }
}

/// The smaller of the two.
pub fn capped(limit: usize, max: usize) -> (r: usize)
    ensures
        r == at_most(limit, max),
{
    if limit <= max {
        limit
    } else {
        max
    }
}

/// How many rows a list leaves out before it starts; an offset that no signed
/// number holds leaves out none.
pub open spec fn skipped(offset: usize) -> nat {
    if offset <= i64::MAX {
        offset as nat
    } else {
        0
    }
}

/// How many rows a list leaves out before it starts.
pub fn start_of(offset: usize) -> (r: usize)
    ensures
        r == skipped(offset),
{
    if offset as u64 <= 0x7fff_ffff_ffff_ffff {
        offset
    } else {
        0
    }
}

// ---------------------------------------------------------------------------
// How many jobs have a status
// ---------------------------------------------------------------------------
/// All states of a job, in the order of their names.
pub open spec fn statuses_by_name() -> Seq<JobStatus> {
    seq![
        JobStatus::Done,
        JobStatus::Excluded,
        JobStatus::Failed,
        JobStatus::Pending,
        JobStatus::Processing,
        JobStatus::Retry,
    ]
}

pub open spec fn status_is(status: JobStatus) -> spec_fn(JobStatus) -> bool {
    |s: JobStatus| s == status
}

/// How many of the states are the given one, where there are any.
pub open spec fn counted(all: Seq<JobStatus>, status: JobStatus) -> Option<StatusCountView> {
    let n = lists::count(all, status_is(status));
    if n > 0 {
        Some(StatusCountView { status: status, count: n as usize })
    } else {
        None
    }
}

/// How many jobs have each status that occurs, in the order of the names.
pub open spec fn status_counts(all: Seq<JobStatus>) -> Seq<StatusCountView> {
    lists::present(statuses_by_name().map_values(|s: JobStatus| counted(all, s)))
}

fn same_status(a: JobStatus, b: JobStatus) -> (r: bool)
    ensures
        r == (a == b),
{
    a == b
}

fn count_status(all: &Vec<JobStatus>, status: JobStatus) -> (r: usize)
    ensures
        r == lists::count(all@, status_is(status)),
{
    let ghost p = status_is(status);
    let mut n: usize = 0;
    let mut i: usize = 0;
    proof {
        reveal(Seq::filter);
        assert(lists::count(all@.take(0), p) == 0);
    }
    while i < all.len()
        invariant
            i <= all@.len(),
            n <= i,
            p == status_is(status),
            n == lists::count(all@.take(i as int), p),
        decreases all@.len() - i,
    {
        proof {
            assert(all@.take(i + 1) =~= all@.take(i as int).push(all@[i as int]));
            lists::lemma_count_push(all@.take(i as int), p, all@[i as int]);
        }
        if same_status(all[i], status) {
            n = n + 1;
        }
        i = i + 1;
    }
    assert(all@.take(i as int) =~= all@);
    n
}

/// How many jobs have each status that occurs.
pub fn count_statuses(all: &Vec<JobStatus>) -> (r: Vec<QueueStatusCount>)
    ensures
        table::views(r@) == status_counts(all@),
{
    let names: Vec<JobStatus> = vec![
        JobStatus::Done,
        JobStatus::Excluded,
        JobStatus::Failed,
        JobStatus::Pending,
        JobStatus::Processing,
        JobStatus::Retry,
    ];
    assert(names@ =~= statuses_by_name());
    let ghost want = statuses_by_name().map_values(|s: JobStatus| counted(all@, s));
    let mut r: Vec<QueueStatusCount> = Vec::new();
    let mut i: usize = 0;
    assert(table::views(r@) =~= lists::present(want.take(0)));
    while i < names.len()
        invariant
            i <= names@.len(),
            names@ == statuses_by_name(),
            want == statuses_by_name().map_values(|s: JobStatus| counted(all@, s)),
            table::views(r@) == lists::present(want.take(i as int)),
        decreases names@.len() - i,
    {
        let ghost before = r@;
        proof {
            assert(want.take(i + 1) =~= want.take(i as int).push(want[i as int]));
            lists::lemma_present_push(want.take(i as int), want[i as int]);
        }
        let n: usize = count_status(all, names[i]);
        if n > 0 {
            let one: QueueStatusCount = QueueStatusCount { status: names[i], count: n };
            r.push(one);
            assert(table::views(r@) =~= table::views(before).push(one@));
        }
        i = i + 1;
    }
    assert(want.take(i as int) =~= want);
    r
}

/// The states of all jobs.
pub open spec fn job_statuses(jobs: Seq<QueueView>) -> Seq<JobStatus> {
    jobs.map_values(|q: QueueView| q.status)
}

impl Database {
    /// How many jobs have each status that occurs.
    pub fn queue_status_counts(&self) -> (r: Vec<QueueStatusCount>)
        ensures
            table::views(r@) == status_counts(job_statuses(self@.queue)),
    {
        let mut all: Vec<JobStatus> = Vec::new();
        let mut i: usize = 0;
        while i < self.queue.len()
            invariant
                i <= self.queue@.len(),
                all@ == job_statuses(self@.queue).take(i as int),
            decreases self.queue@.len() - i,
        {
            all.push(self.queue[i].status);
            i = i + 1;
            assert(job_statuses(self@.queue).take(i as int) =~= job_statuses(self@.queue).take(
                i - 1,
            ).push(self.queue@[i - 1].status));
        }
        assert(job_statuses(self@.queue).take(i as int) =~= job_statuses(self@.queue));
        count_statuses(&all)
    }
}

// ---------------------------------------------------------------------------
// Jobs with what is known of them
// ---------------------------------------------------------------------------
/// The job is one of those that are asked for.
pub open spec fn is_shown(
    status: Option<Seq<char>>,
    language: Option<Seq<char>>,
    app: Option<Seq<char>>,
    creators: Seq<CreatorView>,
    q: QueueView,
) -> bool {
    &&& status matches Some(s) ==> q.status.text() == s
    &&& language matches Some(l) ==> text::upper(
        joins::or_blank(joins::inferred_language(creators, q)),
    ) == l
    &&& app matches Some(a) ==> text::same_ignoring_case(
        joins::or_blank(joins::inferred_app(creators, q)),
        a,
    )
}

/// The joined job is one of those that are asked for.
pub open spec fn shown(
    status: Option<Seq<char>>,
    language: Option<Seq<char>>,
    app: Option<Seq<char>>,
) -> spec_fn(JoinedView) -> bool {
    |j: JoinedView|
        {
            &&& status matches Some(s) ==> j.row.status.text() == s
            &&& language matches Some(l) ==> text::upper(joins::or_blank(j.language)) == l
            &&& app matches Some(a) ==> text::same_ignoring_case(joins::or_blank(j.app), a)
        }
}

struct Shown {
    status: Option<String>,
    language: Option<String>,
    app: Option<String>,
}

impl<'a> RowTest<JoinedJob<'a>> for Shown {
    closed spec fn wanted(&self) -> spec_fn(JoinedView) -> bool {
        shown(
            models::opt_text(self.status),
            models::opt_text(self.language),
            models::opt_text(self.app),
        )
    }

    fn test(&self, row: &JoinedJob<'a>) -> (r: bool) {
        if let Some(s) = &self.status {
            if !text::same(row.row.status.name(), s.as_str()) {
                return false;
            }
        }
        if let Some(l) = &self.language {
            let language: String = queue::blank_if_none(&row.language);
            let upper: String = text::to_upper(language.as_str());
            if !text::same(upper.as_str(), l.as_str()) {
                return false;
            }
        }
        match &self.app {
            Some(a) => {
                let app: String = queue::blank_if_none(&row.app);
                text::eq_ignoring_case(app.as_str(), a.as_str())
            },
            None => true,
        }
    }
}

/// The policy that is shown; jobs to which none applies are neutral.
pub open spec fn policy_shown(policy: Option<AppPolicy>) -> AppPolicy {
    match policy {
        Some(p) => p,
        None => AppPolicy::Neutral,
    }
}

pub fn policy_or_neutral(policy: Option<AppPolicy>) -> (r: AppPolicy)
    ensures
        r == policy_shown(policy),
{
    match policy {
        Some(p) => p,
        None => AppPolicy::Neutral,
    }
}

/// A joined job, as lists show it.
pub open spec fn job_shown() -> spec_fn(JoinedView) -> QueueShown {
    |j: JoinedView|
        QueueShown {
            handle: j.row.handle,
            discovered_from: j.row.discovered_from,
            found_at: j.row.found_at,
            status: j.row.status,
            attempts: j.row.attempts,
            last_error: j.row.last_error,
            expected_app_name: j.row.expected_app_name,
            inferred_app_name: j.app,
            inferred_language_code: j.language,
            inferred_country_code: j.country,
            app_policy: policy_shown(j.policy),
        }
}

struct JobDisplay {}

impl<'a> RowDisplay<JoinedJob<'a>, QueueViewItem> for JobDisplay {
    closed spec fn shown(&self) -> spec_fn(JoinedView) -> QueueShown {
        job_shown()
    }

    fn show(&self, row: &JoinedJob<'a>) -> (r: QueueViewItem) {
        QueueViewItem {
            handle: row.row.handle.clone(),
            discovered_from: models::copy_opt(&row.row.discovered_from),
            found_at: row.row.found_at.clone(),
            status: row.row.status,
            attempts: row.row.attempts,
            last_error: models::copy_opt(&row.row.last_error),
            expected_app_name: models::copy_opt(&row.row.expected_app_name),
            inferred_app_name: models::copy_opt(&row.app),
            inferred_language_code: models::copy_opt(&row.language),
            inferred_country_code: models::copy_opt(&row.country),
            app_policy: policy_or_neutral(row.policy),
        }
    }
}

/// All jobs that are asked for, in the order in which they are taken.
pub open spec fn jobs_shown(
    db: DatabaseView,
    status: Option<Seq<char>>,
    language: Option<Seq<char>>,
    app: Option<Seq<char>>,
) -> Seq<JoinedView> {
    table::chosen(
        joins::joined(db.apps, db.creators, db.queue),
        shown(status, language, app),
        queue::turn_key(),
        queue::turn_directions(),
    )
}

struct ShownJob<'a> {
    creators: &'a Vec<CreatorRow>,
    status: Option<String>,
    language: Option<String>,
    app: Option<String>,
}

/// The job is one of those that are asked for.
pub open spec fn row_shown(
    status: Option<Seq<char>>,
    language: Option<Seq<char>>,
    app: Option<Seq<char>>,
    creators: Seq<CreatorView>,
) -> spec_fn(QueueView) -> bool {
    |q: QueueView| is_shown(status, language, app, creators, q)
}

impl<'a> RowTest<QueueRow> for ShownJob<'a> {
    closed spec fn wanted(&self) -> spec_fn(QueueView) -> bool {
        row_shown(
            models::opt_text(self.status),
            models::opt_text(self.language),
            models::opt_text(self.app),
            table::views(self.creators@),
        )
    }

    fn test(&self, row: &QueueRow) -> (r: bool) {
        if let Some(s) = &self.status {
            if !text::same(row.status.name(), s.as_str()) {
                return false;
            }
        }
        if let Some(l) = &self.language {
            let found: Option<String> = joins::infer_language(self.creators, row);
            let language: String = queue::blank_if_none(&found);
            let upper: String = text::to_upper(language.as_str());
            if !text::same(upper.as_str(), l.as_str()) {
                return false;
            }
        }
        match &self.app {
            Some(a) => {
                let found: Option<String> = joins::infer_app(self.creators, row);
                let app: String = queue::blank_if_none(&found);
                text::eq_ignoring_case(app.as_str(), a.as_str())
            },
            None => true,
        }
    }
}

impl Database {
    /// Jobs with what is known of them, in the order in which they are taken.
    pub fn list_queue_view(
        &self,
        status: Option<&str>,
        language_code: Option<&str>,
        app_name: Option<&str>,
        limit: usize,
        offset: usize,
    ) -> (r: Vec<QueueViewItem>)
        ensures
            table::views(r@) == table::page(
                jobs_shown(
                    self@,
                    models::non_blank(filters::opt_str(status)),
                    filters::language_filter(filters::opt_str(language_code)),
                    filters::app_filter(filters::opt_str(app_name)),
                ),
                at_most(limit, LIST_LIMIT),
                skipped(offset),
            ).map_values(job_shown()),
    {
        let test: Shown = Shown {
            status: filters::trimmed_str(status),
            language: filters::normalized_language_filter(language_code),
            app: filters::normalized_specific_app_filter(app_name),
        };
        let joined: Vec<JoinedJob<'_>> = joins::join_queue(
            &self.apps,
            &self.creators,
            &self.queue,
        );
        table::list_rows(
            &joined,
            &test,
            &Turn {  },
            &JobDisplay {  },
            capped(limit, LIST_LIMIT),
            start_of(offset),
        )
    }

    /// How many jobs are asked for.
    pub fn count_queue_view(
        &self,
        status: Option<&str>,
        language_code: Option<&str>,
        app_name: Option<&str>,
    ) -> (r: usize)
        ensures
            r == lists::count(
                self@.queue,
                row_shown(
                    models::non_blank(filters::opt_str(status)),
                    filters::language_filter(filters::opt_str(language_code)),
                    filters::app_filter(filters::opt_str(app_name)),
                    self@.creators,
                ),
            ),
    {
        let test = ShownJob {
            creators: &self.creators,
            status: filters::trimmed_str(status),
            language: filters::normalized_language_filter(language_code),
            app: filters::normalized_specific_app_filter(app_name),
        };
        table::count_rows(&self.queue, &test)
    }
}

// ---------------------------------------------------------------------------
// Plain jobs
// ---------------------------------------------------------------------------
/// The job has the status, where one is asked for.
pub open spec fn with_status(status: Option<Seq<char>>) -> spec_fn(QueueView) -> bool {
    |q: QueueView| status matches Some(s) ==> q.status.text() == s
}

/// Jobs that are expected to promote an app come first, then the oldest.
pub open spec fn plain_key() -> spec_fn(QueueView) -> Seq<SortView> {
    |q: QueueView|
        seq![
            SortView::Number(
                if joins::unspaced(q.expected_app_name) is Some {
                    0
                } else {
                    1
                },
            ),
            SortView::Text(q.found_at),
        ]
}

struct WithStatus<'a> {
    status: Option<&'a str>,
}

impl<'a> RowTest<QueueRow> for WithStatus<'a> {
    closed spec fn wanted(&self) -> spec_fn(QueueView) -> bool {
        with_status(filters::opt_str(self.status))
    }

    fn test(&self, row: &QueueRow) -> (r: bool) {
        match self.status {
            Some(s) => text::same(row.status.name(), s),
            None => true,
        }
    }
}

struct PlainOrder {}

impl RowKey<QueueRow> for PlainOrder {
    closed spec fn key(&self) -> spec_fn(QueueView) -> Seq<SortView> {
        plain_key()
    }

    closed spec fn directions(&self) -> Seq<bool> {
        seq![false, false]
    }

    fn key_of(&self, row: &QueueRow) -> (r: Vec<SortValue>) {
        let rank: i128 = if joins::unspaced_of(&row.expected_app_name).is_some() {
            0
        } else {
            1
        };
        let r: Vec<SortValue> = vec![
            SortValue::Number(rank),
            SortValue::Text(row.found_at.clone()),
        ];
        assert(ranking::key_view(r@) =~= plain_key()(row@));
        r
    }

    fn descending(&self) -> (r: Vec<bool>) {
        let r: Vec<bool> = vec![false, false];
        assert(r@ =~= seq![false, false]);
        r
    }
}

/// A job, as plain lists show it.
pub open spec fn plain_shown() -> spec_fn(QueueView) -> QueueItemView {
    |q: QueueView|
        QueueItemView {
            handle: q.handle,
            discovered_from: q.discovered_from,
            found_at: q.found_at,
            status: q.status.text(),
            attempts: q.attempts,
            last_error: q.last_error,
        }
}

struct PlainDisplay {}

impl RowDisplay<QueueRow, QueueItem> for PlainDisplay {
    closed spec fn shown(&self) -> spec_fn(QueueView) -> QueueItemView {
        plain_shown()
    }

    fn show(&self, row: &QueueRow) -> (r: QueueItem) {
        QueueItem {
            handle: row.handle.clone(),
            discovered_from: models::copy_opt(&row.discovered_from),
            found_at: row.found_at.clone(),
            status: row.status.name().to_string(),
            attempts: row.attempts,
            last_error: models::copy_opt(&row.last_error),
        }
    }
}

impl Database {
    /// Jobs, those that are expected to promote an app first.
    pub fn list_queue(&self, status: Option<&str>, limit: usize) -> (r: Vec<QueueItem>)
        ensures
            table::views(r@) == table::page(
                table::chosen(
                    self@.queue,
                    with_status(filters::opt_str(status)),
                    plain_key(),
                    seq![false, false],
                ),
                at_most(limit, LIST_LIMIT),
                0,
            ).map_values(plain_shown()),
    {
        table::list_rows(
            &self.queue,
            &WithStatus { status },
            &PlainOrder {  },
            &PlainDisplay {  },
            capped(limit, LIST_LIMIT),
            0,
        )
    }
}

} // verus!
