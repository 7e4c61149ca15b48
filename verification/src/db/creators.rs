//! Changing what is known of creators and apps.

use vstd::prelude::*;
use crate::db::apps;
use crate::db::filters;
use crate::db::filters::DbError;
use crate::db::joins;
use crate::db::outcomes;
use crate::db::outcomes::PrunableFrom;
use crate::db::queue;
use crate::db::rows;
use crate::db::rows::{
    AppPolicy, ContactStatus, CreatorIs, CreatorRow, CreatorView, Database, DatabaseView,
    JobStatus, QueueRow, QueueView,
};
use crate::db::table;
use crate::db::table::{RowChange, RowTest};
use crate::handles;
use crate::lists;
use crate::models;
use crate::search;
use crate::services::tiktok;
use crate::text;

verus! {

// ---------------------------------------------------------------------------
// Apps and their policies
// ---------------------------------------------------------------------------
/// What is noted of a job that is left out because of its app.
pub const BLACKLIST_NOTE: &'static str = "app blacklisted";

/// The job is for the app.
pub open spec fn is_for(creators: Seq<CreatorView>, name: Seq<char>, q: QueueView) -> bool {
    text::same_ignoring_case(joins::or_blank(joins::inferred_app(creators, q)), name)
}

/// The job is for the app and waits.
pub open spec fn waits_for(creators: Seq<CreatorView>, name: Seq<char>) -> spec_fn(
    QueueView,
) -> bool {
    |q: QueueView| queue::is_open(q.status) && is_for(creators, name, q)
}

/// The job is for the app and was left out because of it.
pub open spec fn left_out_for(creators: Seq<CreatorView>, name: Seq<char>) -> spec_fn(
    QueueView,
) -> bool {
    |q: QueueView|
        q.status == JobStatus::Excluded && q.last_error == Some(BLACKLIST_NOTE@) && is_for(
            creators,
            name,
            q,
        )
}

/// Jobs that wait for the app are left out.
pub open spec fn excluded(creators: Seq<CreatorView>, name: Seq<char>) -> spec_fn(
    QueueView,
) -> QueueView {
    |q: QueueView|
        if waits_for(creators, name)(q) {
            QueueView {
                status: JobStatus::Excluded,
                locked_at: None,
                last_error: Some(BLACKLIST_NOTE@),
                ..q
            }
        } else {
            q
        }
}

/// Jobs that were left out because of the app wait again.
pub open spec fn restored(creators: Seq<CreatorView>, name: Seq<char>) -> spec_fn(
    QueueView,
) -> QueueView {
    |q: QueueView|
        if left_out_for(creators, name)(q) {
            QueueView { status: JobStatus::Pending, last_error: None, ..q }
        } else {
            q
        }
}

fn job_is_for(creators: &Vec<CreatorRow>, name: &str, job: &QueueRow) -> (r: bool)
    ensures
        r == is_for(table::views(creators@), name@, job@),
{
    match joins::infer_app(creators, job) {
        Some(app) => text::eq_ignoring_case(app.as_str(), name),
        None => {
            let blank: String = String::new();
            assert(blank@ =~= Seq::<char>::empty());
            text::eq_ignoring_case(blank.as_str(), name)
        },
    }
}

struct WaitsFor<'a> {
    creators: &'a Vec<CreatorRow>,
    name: &'a str,
}

impl<'a> RowTest<QueueRow> for WaitsFor<'a> {
    closed spec fn wanted(&self) -> spec_fn(QueueView) -> bool {
        waits_for(table::views(self.creators@), self.name@)
    }

    fn test(&self, row: &QueueRow) -> (r: bool) {
        match row.status {
            JobStatus::Pending | JobStatus::Retry => job_is_for(self.creators, self.name, row),
            _ => false,
        }
    }
}

impl<'a> RowChange<QueueRow> for WaitsFor<'a> {
    closed spec fn changed(&self) -> spec_fn(QueueView) -> QueueView {
        excluded(table::views(self.creators@), self.name@)
    }

    fn apply(&self, row: &mut QueueRow) {
        if self.test(row) {
            row.status = JobStatus::Excluded;
            row.locked_at = None;
            row.last_error = Some(BLACKLIST_NOTE.to_string());
        }
    }
}

struct LeftOutFor<'a> {
    creators: &'a Vec<CreatorRow>,
    name: &'a str,
}

impl<'a> RowTest<QueueRow> for LeftOutFor<'a> {
    closed spec fn wanted(&self) -> spec_fn(QueueView) -> bool {
        left_out_for(table::views(self.creators@), self.name@)
    }

    fn test(&self, row: &QueueRow) -> (r: bool) {
        match row.status {
            JobStatus::Excluded => filters::is_text(&row.last_error, BLACKLIST_NOTE)
                && job_is_for(self.creators, self.name, row),
            _ => false,
        }
    }
}

impl<'a> RowChange<QueueRow> for LeftOutFor<'a> {
    closed spec fn changed(&self) -> spec_fn(QueueView) -> QueueView {
        restored(table::views(self.creators@), self.name@)
    }

    fn apply(&self, row: &mut QueueRow) {
        if self.test(row) {
            row.status = JobStatus::Pending;
            row.last_error = None;
        }
    }
}

/// The database after the policy of an app was set.
pub open spec fn with_rule(
    db: DatabaseView,
    name: Seq<char>,
    policy: AppPolicy,
    now: Seq<char>,
) -> DatabaseView {
    DatabaseView {
        apps: apps::with_policy(db.apps, name, now, policy),
        queue: if policy == AppPolicy::Blacklist {
            db.queue.map_values(excluded(db.creators, name))
        } else {
            db.queue.map_values(restored(db.creators, name))
        },
        ..db
    }
}

/// How many jobs setting the policy of an app changes.
pub open spec fn jobs_ruled(db: DatabaseView, name: Seq<char>, policy: AppPolicy) -> nat {
    if policy == AppPolicy::Blacklist {
        lists::count(db.queue, waits_for(db.creators, name))
    } else {
        lists::count(db.queue, left_out_for(db.creators, name))
    }
}

impl Database {
    /// Adds an app. Returns whether it was not there.
    pub fn add_app_name(&mut self, name: &str, now: &str) -> (r: Result<bool, DbError>)
        requires
            old(self)@.wf(),
        ensures
            final(self)@.wf(),
            match models::non_blank(Some(name@)) {
                None => r == Err::<bool, DbError>(DbError::EmptyAppName) && final(self)@ == old(self)@,
                Some(n) => r == Ok::<bool, DbError>(!rows::has_app(old(self)@.apps, n)) && final(self)@ == if rows::has_app(old(self)@.apps, n) {
                    old(self)@
                } else {
                    (DatabaseView {
                        apps: old(self)@.apps.push(
                            apps::new_app(n, now@, AppPolicy::Neutral),
                        ),
                        ..old(self)@
                    })
                },
            },
    {
        let ghost start = self@;
        match filters::trimmed_str(Some(name)) {
            None => Err(DbError::EmptyAppName),
            Some(n) => {
                let added: bool = apps::ensure_app(&mut self.apps, n.as_str(), now);
                proof {
                    if added {
                        apps::lemma_new_app(start.apps, n@, now@);
                        queue::lemma_apps_only(start, self@.apps);
                    }
                }
                Ok(added)
            },
        }
    }

    /// Sets the policy of an app. Jobs that wait for an app on the black list
    /// are left out; under another policy they come back. Returns how many jobs
    /// were changed.
    pub fn set_app_policy(&mut self, name: &str, policy: &str, now: &str) -> (r: Result<
        usize,
        DbError,
    >)
        requires
            old(self)@.wf(),
        ensures
            final(self)@.wf(),
            match (models::non_blank(Some(name@)), filters::policy_of(policy@)) {
                (None, _) => r == Err::<usize, DbError>(DbError::EmptyAppName) && final(self)@
                    == old(self)@,
                (Some(_), None) => r == Err::<usize, DbError>(DbError::UnknownPolicy) && final(self)@ == old(self)@,
                (Some(n), Some(p)) => r == Ok::<usize, DbError>(
                    jobs_ruled(old(self)@, n, p) as usize,
                ) && final(self)@ == with_rule(old(self)@, n, p, now@),
            },
    {
        let ghost start = self@;
        let n: String = match filters::trimmed_str(Some(name)) {
            Some(n) => n,
            None => {
                return Err(DbError::EmptyAppName);
            },
        };
        let p: AppPolicy = match filters::normalize_app_policy(policy) {
            Ok(p) => p,
            Err(error) => {
                return Err(error);
            },
        };
        apps::rule_app(&mut self.apps, n.as_str(), now, p);
        proof {
            apps::lemma_with_policy(start.apps, n@, now@, p);
            table::lemma_distinct_map(
                start.queue,
                excluded(start.creators, n@),
                rows::job_key(),
            );
            table::lemma_distinct_map(
                start.queue,
                restored(start.creators, n@),
                rows::job_key(),
            );
            let next = with_rule(start, n@, p, now@);
            queue::lemma_queue_only(start, next.queue);
            queue::lemma_apps_only(DatabaseView { queue: next.queue, ..start }, next.apps);
        }
        let blacklist: bool = match p {
            AppPolicy::Blacklist => true,
            _ => false,
        };
        if blacklist {
            let change = WaitsFor { creators: &self.creators, name: n.as_str() };
            let changed: usize = table::count_rows(&self.queue, &change);
            table::update_rows(&mut self.queue, &change);
            Ok(changed)
        } else {
            let change = LeftOutFor { creators: &self.creators, name: n.as_str() };
            let changed: usize = table::count_rows(&self.queue, &change);
            table::update_rows(&mut self.queue, &change);
            Ok(changed)
        }
    }
}

/// What blacklisting an app leaves out comes back when the app is no longer
/// blacklisted: the same jobs wait, with the tries that they had.
pub proof fn law_blacklisting_can_be_undone(
    db: DatabaseView,
    name: Seq<char>,
    policy: AppPolicy,
    now: Seq<char>,
    later: Seq<char>,
    k: int,
)
    requires
        0 <= k < db.queue.len(),
        waits_for(db.creators, name)(db.queue[k]),
        policy != AppPolicy::Blacklist,
    ensures
        ({
            let without = with_rule(db, name, AppPolicy::Blacklist, now);
            let with = with_rule(without, name, policy, later);
            &&& !queue::is_open(without.queue[k].status)
            &&& with.queue[k] == QueueView {
                status: JobStatus::Pending,
                locked_at: None,
                last_error: None,
                ..db.queue[k]
            }
        }),
{
    let without = with_rule(db, name, AppPolicy::Blacklist, now);
    let left = without.queue[k];
    assert(left == excluded(db.creators, name)(db.queue[k]));
    assert(joins::inferred_app(db.creators, left) == joins::inferred_app(
        db.creators,
        db.queue[k],
    ));
    let with = with_rule(without, name, policy, later);
    assert(with.queue[k] == restored(db.creators, name)(left));
}

/// Jobs that are not for the app stay as they are, whatever the policy.
pub proof fn law_policy_touches_only_its_app(
    db: DatabaseView,
    name: Seq<char>,
    policy: AppPolicy,
    now: Seq<char>,
    k: int,
)
    requires
        0 <= k < db.queue.len(),
        !is_for(db.creators, name, db.queue[k]),
    ensures
        with_rule(db, name, policy, now).queue[k] == db.queue[k],
{
}

/// Setting the policy of an app keeps the number of tries bounded.
pub proof fn law_policy_keeps_attempts_bounded(
    db: DatabaseView,
    name: Seq<char>,
    policy: AppPolicy,
    now: Seq<char>,
)
    requires
        outcomes::attempts_bounded(db.queue),
    ensures
        outcomes::attempts_bounded(with_rule(db, name, policy, now).queue),
{
}

// ---------------------------------------------------------------------------
// One creator
// ---------------------------------------------------------------------------
pub open spec fn promoting(handle: Seq<char>, app: Option<Seq<char>>) -> spec_fn(
    CreatorView,
) -> CreatorView {
    |c: CreatorView|
        if c.handle == handle {
            CreatorView { promoted_app_name: app, ..c }
        } else {
            c
        }
}

struct Promote<'a> {
    handle: &'a str,
    app: &'a Option<String>,
}

impl<'a> RowChange<CreatorRow> for Promote<'a> {
    closed spec fn changed(&self) -> spec_fn(CreatorView) -> CreatorView {
        promoting(self.handle@, models::opt_text(*self.app))
    }

    fn apply(&self, row: &mut CreatorRow) {
        if text::same(row.handle.as_str(), self.handle) {
            row.promoted_app_name = models::copy_opt(self.app);
        }
    }
}

/// The database after a creator's app was set by hand: without an app, the jobs
/// that were found at the creator are dropped.
pub open spec fn with_creator_app(
    db: DatabaseView,
    handle: Seq<char>,
    app: Option<Seq<char>>,
    now: Seq<char>,
) -> DatabaseView {
    DatabaseView {
        apps: match app {
            Some(name) => apps::with_app_seen(db.apps, name, now),
            None => db.apps,
        },
        creators: db.creators.map_values(promoting(handle, app)),
        queue: match app {
            Some(_) => db.queue,
            None => table::without(db.queue, outcomes::prunable_from(handle)),
        },
        ..db
    }
}

/// The contact state of a creator is set: the moment of the choice and of the
/// contact are kept as long as they apply.
pub open spec fn contacted(handle: Seq<char>, status: ContactStatus, now: Seq<char>) -> spec_fn(
    CreatorView,
) -> CreatorView {
    |c: CreatorView|
        if c.handle == handle {
            CreatorView {
                contact_status: status,
                contact_priority_at: match status {
                    ContactStatus::ToContact => joins::or_else(c.contact_priority_at, Some(now)),
                    ContactStatus::Unselected => None,
                    ContactStatus::Contacted => c.contact_priority_at,
                },
                contacted_at: match status {
                    ContactStatus::Contacted => joins::or_else(c.contacted_at, Some(now)),
                    _ => None,
                },
                ..c
            }
        } else {
            c
        }
}

struct Contact<'a> {
    handle: &'a str,
    status: ContactStatus,
    now: &'a str,
}

impl<'a> RowChange<CreatorRow> for Contact<'a> {
    closed spec fn changed(&self) -> spec_fn(CreatorView) -> CreatorView {
        contacted(self.handle@, self.status, self.now@)
    }

    fn apply(&self, row: &mut CreatorRow) {
        if text::same(row.handle.as_str(), self.handle) {
            row.contact_status = self.status;
            match self.status {
                ContactStatus::ToContact => {
                    if row.contact_priority_at.is_none() {
                        row.contact_priority_at = Some(self.now.to_string());
                    }
                    row.contacted_at = None;
                },
                ContactStatus::Unselected => {
                    row.contact_priority_at = None;
                    row.contacted_at = None;
                },
                ContactStatus::Contacted => {
                    if row.contacted_at.is_none() {
                        row.contacted_at = Some(self.now.to_string());
                    }
                },
            }
        }
    }
}

/// A job of a creator who is to be written to is put first.
pub open spec fn hurried(handle: Seq<char>, status: ContactStatus) -> spec_fn(
    QueueView,
) -> QueueView {
    |q: QueueView|
        if q.handle == handle && queue::is_open(q.status) && status == ContactStatus::ToContact {
            QueueView { manual_priority: true, ..q }
        } else {
            q
        }
}

struct Hurry<'a> {
    handle: &'a str,
    status: ContactStatus,
}

impl<'a> RowChange<QueueRow> for Hurry<'a> {
    closed spec fn changed(&self) -> spec_fn(QueueView) -> QueueView {
        hurried(self.handle@, self.status)
    }

    fn apply(&self, row: &mut QueueRow) {
        let open: bool = match row.status {
            JobStatus::Pending | JobStatus::Retry => true,
            _ => false,
        };
        let chosen: bool = match self.status {
            ContactStatus::ToContact => true,
            _ => false,
        };
        if open && chosen && text::same(row.handle.as_str(), self.handle) {
            row.manual_priority = true;
        }
    }
}

/// The address is one that mail can be sent to.
pub open spec fn valid_email(address: Seq<char>) -> bool {
    match search::find(address, seq!['@']) {
        None => false,
        Some(at) => {
            let domain = address.skip(at + 1);
            &&& at > 0
            &&& domain.len() > 0
            &&& !domain.contains('@')
            &&& domain.contains('.')
            &&& domain[0] != '.'
            &&& domain.last() != '.'
            &&& forall|i: int| 0 <= i < address.len() ==> !text::is_white(#[trigger] address[i])
        },
    }
}

/// The address that is asked for: in lower case, and none where it is blank or
/// unknown.
pub open spec fn wanted_email(value: Option<Seq<char>>) -> Option<Seq<char>> {
    match models::non_blank(value) {
        Some(t) => if text::same_ignoring_case(t, "unknown"@) {
            None
        } else {
            Some(text::lower(t))
        },
        None => None,
    }
}

fn has_white(v: &Vec<char>) -> (r: bool)
    ensures
        r == !(forall|i: int| 0 <= i < v@.len() ==> !text::is_white(#[trigger] v@[i])),
{
    let mut i: usize = 0;
    while i < v.len()
        invariant
            i <= v@.len(),
            forall|j: int| 0 <= j < i ==> !text::is_white(#[trigger] v@[j]),
        decreases v@.len() - i,
    {
        if text::white(v[i]) {
            assert(text::is_white(v@[i as int]));
            return true;
        }
        i = i + 1;
    }
    false
}

/// Whether the address is one that mail can be sent to.
pub fn check_email(address: &str) -> (r: bool)
    ensures
        r == valid_email(address@),
{
    let v: Vec<char> = text::chars_of(address);
    let at_sign: Vec<char> = vec!['@'];
    assert(at_sign@ =~= seq!['@']);
    match search::find_in(&v, &at_sign) {
        None => false,
        Some(at) => {
            assert(at + 1 <= v.len());
            let domain: Vec<char> = search::tail_of(&v, at + 1);
            let n: usize = domain.len();
            if at == 0 || n == 0 {
                return false;
            }
            let domain_text: String = text::string_of(&domain, 0, n);
            assert(domain@.subrange(0, n as int) =~= domain@);
            !search::has_char(domain_text.as_str(), '@') && search::has_char(
                domain_text.as_str(),
                '.',
            ) && domain[0] != '.' && domain[n - 1] != '.' && !has_white(&v)
        },
    }
}

pub open spec fn mailed(handle: Seq<char>, email: Option<Seq<char>>) -> spec_fn(
    CreatorView,
) -> CreatorView {
    |c: CreatorView|
        if c.handle == handle {
            CreatorView { email: email, ..c }
        } else {
            c
        }
}

struct Mail<'a> {
    handle: &'a str,
    email: &'a Option<String>,
}

impl<'a> RowChange<CreatorRow> for Mail<'a> {
    closed spec fn changed(&self) -> spec_fn(CreatorView) -> CreatorView {
        mailed(self.handle@, models::opt_text(*self.email))
    }

    fn apply(&self, row: &mut CreatorRow) {
        if text::same(row.handle.as_str(), self.handle) {
            row.email = models::copy_opt(self.email);
        }
    }
}

/// How much of an error is kept with a lookup.
pub const KEPT_LOOKUP_CHARS: usize = 1000;

/// A country as it is kept: trimmed and in upper case.
pub open spec fn kept_country(value: Option<Seq<char>>) -> Option<Seq<char>> {
    match models::non_blank(value) {
        Some(t) => Some(text::upper(t)),
        None => None,
    }
}

pub open spec fn kept_error(value: Option<Seq<char>>) -> Option<Seq<char>> {
    match value {
        Some(t) => Some(search::cut(t, KEPT_LOOKUP_CHARS as nat)),
        None => None,
    }
}

pub open spec fn looked_up(
    handle: Seq<char>,
    country: Option<Seq<char>>,
    error: Option<Seq<char>>,
    now: Seq<char>,
) -> spec_fn(CreatorView) -> CreatorView {
    |c: CreatorView|
        if c.handle == handle {
            CreatorView {
                country_code: country,
                country_checked_at: Some(now),
                country_error: error,
                ..c
            }
        } else {
            c
        }
}

struct LookUp<'a> {
    handle: &'a str,
    country: &'a Option<String>,
    error: &'a Option<String>,
    now: &'a str,
}

impl<'a> RowChange<CreatorRow> for LookUp<'a> {
    closed spec fn changed(&self) -> spec_fn(CreatorView) -> CreatorView {
        looked_up(
            self.handle@,
            models::opt_text(*self.country),
            models::opt_text(*self.error),
            self.now@,
        )
    }

    fn apply(&self, row: &mut CreatorRow) {
        if text::same(row.handle.as_str(), self.handle) {
            row.country_code = models::copy_opt(self.country);
            row.country_checked_at = Some(self.now.to_string());
            row.country_error = models::copy_opt(self.error);
        }
    }
}

pub open spec fn speaking(handle: Seq<char>, language: Seq<char>) -> spec_fn(
    CreatorView,
) -> CreatorView {
    |c: CreatorView|
        if c.handle == handle {
            CreatorView { language_code: language, ..c }
        } else {
            c
        }
}

struct Speak<'a> {
    handle: &'a str,
    language: &'a str,
}

impl<'a> RowChange<CreatorRow> for Speak<'a> {
    closed spec fn changed(&self) -> spec_fn(CreatorView) -> CreatorView {
        speaking(self.handle@, self.language@)
    }

    fn apply(&self, row: &mut CreatorRow) {
        if text::same(row.handle.as_str(), self.handle) {
            row.language_code = self.language.to_string();
        }
    }
}

/// A change of creators that keeps handles and apps keeps a database valid.
proof fn lemma_creators_only(db: DatabaseView, f: spec_fn(CreatorView) -> CreatorView)
    requires
        db.wf(),
        forall|c: CreatorView| (#[trigger] f(c)).handle == c.handle,
        forall|c: CreatorView| (#[trigger] f(c)).promoted_app_name == c.promoted_app_name,
    ensures
        (DatabaseView { creators: db.creators.map_values(f), ..db }).wf(),
{
    let next = DatabaseView { creators: db.creators.map_values(f), ..db };
    table::lemma_distinct_map(db.creators, f, rows::creator_key());
    assert forall|h: Seq<char>|
        #[trigger] rows::has_creator(next.creators, h) == rows::has_creator(db.creators, h) by {
        table::lemma_some_row_map(db.creators, f, rows::creator_is(h));
    }
    assert(rows::apps_known(next)) by {
        assert forall|i: int| 0 <= i < next.creators.len() implies match (
        #[trigger] next.creators[i]).promoted_app_name {
            Some(name) => rows::has_app(next.apps, name),
            None => true,
        } by {
            assert(next.creators[i] == f(db.creators[i]));
        }
    }
}

proof fn lemma_with_creator_app(
    db: DatabaseView,
    handle: Seq<char>,
    app: Option<Seq<char>>,
    now: Seq<char>,
)
    requires
        db.wf(),
    ensures
        with_creator_app(db, handle, app, now).wf(),
{
    let next = with_creator_app(db, handle, app, now);
    if let Some(name) = app {
        apps::lemma_with_app_seen(db.apps, name, now);
    } else {
        table::lemma_distinct_filter(
            db.queue,
            table::opposite(outcomes::prunable_from(handle)),
            rows::job_key(),
        );
    }
    table::lemma_distinct_map(db.creators, promoting(handle, app), rows::creator_key());
    assert forall|h: Seq<char>|
        #[trigger] rows::has_creator(next.creators, h) == rows::has_creator(db.creators, h) by {
        table::lemma_some_row_map(db.creators, promoting(handle, app), rows::creator_is(h));
    }
    assert(rows::apps_known(next)) by {
        assert forall|i: int| 0 <= i < next.creators.len() implies match (
        #[trigger] next.creators[i]).promoted_app_name {
            Some(name) => rows::has_app(next.apps, name),
            None => true,
        } by {
            assert(next.creators[i] == promoting(handle, app)(db.creators[i]));
        }
    }
}

impl Database {
    /// Sets a creator's app by hand. Returns how many jobs were dropped.
    pub fn set_creator_app(&mut self, handle: &str, app_name: Option<&str>, now: &str) -> (r:
        Result<usize, DbError>)
        requires
            old(self)@.wf(),
        ensures
            final(self)@.wf(),
            match handles::normalized_handle(handle@) {
                None => r == Err::<usize, DbError>(DbError::InvalidHandle) && final(self)@ == old(self)@,
                Some(h) => if !rows::has_creator(old(self)@.creators, h) {
                    r == Err::<usize, DbError>(DbError::CreatorNotFound) && final(self)@ == old(self)@
                } else {
                    let app = models::non_blank(filters::opt_str(app_name));
                    &&& final(self)@ == with_creator_app(old(self)@, h, app, now@)
                    &&& r == Ok::<usize, DbError>(
                        if app is Some {
                            0
                        } else {
                            lists::count(
                                old(self)@.queue,
                                outcomes::prunable_from(h),
                            ) as usize
                        },
                    )
                },
            },
    {
        let ghost start = self@;
        let h: String = match handles::normalize_handle(handle) {
            Some(h) => h,
            None => {
                return Err(DbError::InvalidHandle);
            },
        };
        if !table::any_row(&self.creators, &CreatorIs { handle: h.as_str() }) {
            return Err(DbError::CreatorNotFound);
        }
        let app: Option<String> = filters::trimmed_str(app_name);
        proof {
            lemma_with_creator_app(start, h@, models::opt_text(app), now@);
        }
        if let Some(name) = &app {
            apps::see_app(&mut self.apps, name.as_str(), now);
        }
        table::update_rows(&mut self.creators, &Promote { handle: h.as_str(), app: &app });
        if app.is_none() {
            Ok(table::delete_rows(&mut self.queue, &PrunableFrom { source: h.as_str() }))
        } else {
            Ok(0)
        }
    }

    /// Sets the contact state of a creator.
    pub fn set_creator_contact_status(&mut self, handle: &str, status: &str, now: &str) -> (r:
        Result<(), DbError>)
        requires
            old(self)@.wf(),
        ensures
            final(self)@.wf(),
            match (handles::normalized_handle(handle@), filters::contact_of(status@)) {
                (None, _) => r == Err::<(), DbError>(DbError::InvalidHandle) && final(self)@
                    == old(self)@,
                (Some(_), None) => r == Err::<(), DbError>(DbError::UnknownContactStatus)
                    && final(self)@ == old(self)@,
                (Some(h), Some(s)) => if !rows::has_creator(old(self)@.creators, h) {
                    r == Err::<(), DbError>(DbError::CreatorNotFound) && final(self)@ == old(self)@
                } else {
                    r == Ok::<(), DbError>(()) && final(self)@ == (DatabaseView {
                        creators: old(self)@.creators.map_values(contacted(h, s, now@)),
                        queue: old(self)@.queue.map_values(hurried(h, s)),
                        ..old(self)@
                    })
                },
            },
    {
        let ghost start = self@;
        let h: String = match handles::normalize_handle(handle) {
            Some(h) => h,
            None => {
                return Err(DbError::InvalidHandle);
            },
        };
        let s: ContactStatus = match filters::normalize_contact_status(status) {
            Ok(s) => s,
            Err(error) => {
                return Err(error);
            },
        };
        if !table::any_row(&self.creators, &CreatorIs { handle: h.as_str() }) {
            return Err(DbError::CreatorNotFound);
        }
        table::update_rows(
            &mut self.creators,
            &Contact { handle: h.as_str(), status: s, now },
        );
        table::update_rows(&mut self.queue, &Hurry { handle: h.as_str(), status: s });
        proof {
            lemma_creators_only(start, contacted(h@, s, now@));
            let mid = DatabaseView { creators: self@.creators, ..start };
            table::lemma_distinct_map(start.queue, hurried(h@, s), rows::job_key());
            queue::lemma_queue_only(mid, self@.queue);
        }
        Ok(())
    }

    /// Sets a creator's address by hand; none where it is blank or unknown.
    pub fn set_creator_email(&mut self, handle: &str, email: Option<&str>) -> (r: Result<
        (),
        DbError,
    >)
        requires
            old(self)@.wf(),
        ensures
            final(self)@.wf(),
            match handles::normalized_handle(handle@) {
                None => r == Err::<(), DbError>(DbError::InvalidHandle) && final(self)@ == old(self)@,
                Some(h) => {
                    let address = wanted_email(filters::opt_str(email));
                    if address is Some && !valid_email(address->0) {
                        r == Err::<(), DbError>(DbError::InvalidEmail) && final(self)@ == old(self)@
                    } else if !rows::has_creator(old(self)@.creators, h) {
                        r == Err::<(), DbError>(DbError::CreatorNotFound) && final(self)@ == old(self)@
                    } else {
                        r == Ok::<(), DbError>(()) && final(self)@ == (DatabaseView {
                            creators: old(self)@.creators.map_values(mailed(h, address)),
                            ..old(self)@
                        })
                    }
                },
            },
    {
        let ghost start = self@;
        let h: String = match handles::normalize_handle(handle) {
            Some(h) => h,
            None => {
                return Err(DbError::InvalidHandle);
            },
        };
        let address: Option<String> = match filters::trimmed_str(email) {
            Some(t) => if text::eq_ignoring_case(t.as_str(), "unknown") {
                None
            } else {
                Some(text::to_lower(t.as_str()))
            },
            None => None,
        };
        if let Some(a) = &address {
            if !check_email(a.as_str()) {
                return Err(DbError::InvalidEmail);
            }
        }
        if !table::any_row(&self.creators, &CreatorIs { handle: h.as_str() }) {
            return Err(DbError::CreatorNotFound);
        }
        table::update_rows(
            &mut self.creators,
            &Mail { handle: h.as_str(), email: &address },
        );
        proof {
            lemma_creators_only(start, mailed(h@, models::opt_text(address)));
        }
        Ok(())
    }

    /// Keeps what a lookup of a creator's country found.
    pub fn record_creator_country_lookup(
        &mut self,
        handle: &str,
        country_code: Option<&str>,
        error: Option<&str>,
        now: &str,
    ) -> (r: Result<(), DbError>)
        requires
            old(self)@.wf(),
        ensures
            final(self)@.wf(),
            match handles::normalized_handle(handle@) {
                None => r == Err::<(), DbError>(DbError::InvalidHandle) && final(self)@ == old(self)@,
                Some(h) => if !rows::has_creator(old(self)@.creators, h) {
                    r == Err::<(), DbError>(DbError::CreatorNotFound) && final(self)@ == old(self)@
                } else {
                    r == Ok::<(), DbError>(()) && final(self)@ == (DatabaseView {
                        creators: old(self)@.creators.map_values(
                            looked_up(
                                h,
                                kept_country(filters::opt_str(country_code)),
                                kept_error(filters::opt_str(error)),
                                now@,
                            ),
                        ),
                        ..old(self)@
                    })
                },
            },
    {
        let ghost start = self@;
        let h: String = match handles::normalize_handle(handle) {
            Some(h) => h,
            None => {
                return Err(DbError::InvalidHandle);
            },
        };
        if !table::any_row(&self.creators, &CreatorIs { handle: h.as_str() }) {
            return Err(DbError::CreatorNotFound);
        }
        let country: Option<String> = match filters::trimmed_str(country_code) {
            Some(t) => Some(text::to_upper(t.as_str())),
            None => None,
        };
        let reason: Option<String> = match error {
            Some(t) => Some(search::cut_to(t, KEPT_LOOKUP_CHARS)),
            None => None,
        };
        table::update_rows(
            &mut self.creators,
            &LookUp { handle: h.as_str(), country: &country, error: &reason, now },
        );
        proof {
            lemma_creators_only(
                start,
                looked_up(h@, models::opt_text(country), models::opt_text(reason), now@),
            );
        }
        Ok(())
    }

    /// Sets a creator's language.
    pub fn update_creator_language(&mut self, handle: &str, language_code: &str) -> (r: Result<
        (),
        DbError,
    >)
        requires
            old(self)@.wf(),
        ensures
            final(self)@.wf(),
            match handles::normalized_handle(handle@) {
                None => r == Err::<(), DbError>(DbError::InvalidHandle) && final(self)@ == old(self)@,
                Some(h) => r == Ok::<(), DbError>(()) && final(self)@ == (DatabaseView {
                    creators: old(self)@.creators.map_values(
                        speaking(h, text::upper(text::trim(language_code@))),
                    ),
                    ..old(self)@
                }),
            },
    {
        let ghost start = self@;
        match handles::normalize_handle(handle) {
            None => Err(DbError::InvalidHandle),
            Some(h) => {
                let trimmed: String = text::trim_of(language_code);
                let language: String = text::to_upper(trimmed.as_str());
                table::update_rows(
                    &mut self.creators,
                    &Speak { handle: h.as_str(), language: language.as_str() },
                );
                proof {
                    lemma_creators_only(start, speaking(h@, language@));
                }
                Ok(())
            },
        }
    }
}

// ---------------------------------------------------------------------------
// Saved countries
// ---------------------------------------------------------------------------
/// What an earlier lookup noted where it found no country.
pub const NO_REGION_NOTE: &'static str = "profile region was missing or invalid";

/// A saved country as a market in upper case.
pub open spec fn saved_market(code: Seq<char>) -> Seq<char> {
    let upper = text::upper(code);
    if upper.len() == 2 {
        let pair = tiktok::market(upper[0], upper[1]);
        seq![pair.0, pair.1]
    } else {
        upper
    }
}

/// The saved country of a creator in order: the market of the language where it
/// has one, else the market of the saved country. A lookup that found nothing
/// is forgotten.
pub open spec fn in_order(c: CreatorView) -> CreatorView {
    let country = match c.country_code {
        Some(code) => Some(saved_market(code)),
        None => None,
    };
    let forget = country is None && c.country_error == Some(NO_REGION_NOTE@);
    let home = filters::market_of_code(text::upper(c.language_code));
    CreatorView {
        country_code: joins::or_else(home, country),
        country_checked_at: if forget {
            None
        } else {
            c.country_checked_at
        },
        country_error: if forget {
            None
        } else {
            c.country_error
        },
        ..c
    }
}

pub open spec fn locales_in_order() -> spec_fn(CreatorView) -> CreatorView {
    |c: CreatorView| in_order(c)
}

/// Bringing a saved country into order twice is doing it once.
pub proof fn law_locales_stay_in_order(c: CreatorView)
    ensures
        in_order(in_order(c)) == in_order(c),
{
    let once = in_order(c);
    if let Some(code) = c.country_code {
        lemma_market_idempotent(code);
    }
    let language = text::upper(c.language_code);
    if filters::market_of_code(language) is Some {
        let home = filters::market_of_code(language)->0;
        assert(text::upper(home) =~= home);
        assert(tiktok::market(home[0], home[1]) == (home[0], home[1]));
        assert(saved_market(home) =~= home);
    }
    assert(in_order(once) == once);
}

proof fn lemma_market_idempotent(code: Seq<char>)
    ensures
        saved_market(saved_market(code)) == saved_market(code),
{
    let upper = text::upper(code);
    text::lemma_upper_idempotent(code);
    let once = saved_market(code);
    if upper.len() == 2 {
        assert(text::upper(upper)[0] == text::upper_char(upper[0]));
        assert(text::upper(upper)[1] == text::upper_char(upper[1]));
        assert(text::upper(once) =~= once);
        assert(tiktok::market(once[0], once[1]) == (once[0], once[1]));
        assert(saved_market(once) =~= once);
    }
}

fn market_text(code: &str) -> (r: String)
    ensures
        r@ == saved_market(code@),
{
    let upper: String = text::to_upper(code);
    let v: Vec<char> = text::chars_of(upper.as_str());
    if v.len() == 2 {
        let pair: (char, char) = tiktok::market_of(v[0], v[1]);
        let mut r: String = String::new();
        r.push(pair.0);
        r.push(pair.1);
        assert(r@ =~= seq![pair.0, pair.1]);
        r
    } else {
        upper
    }
}

struct OrderLocales {}

impl RowChange<CreatorRow> for OrderLocales {
    closed spec fn changed(&self) -> spec_fn(CreatorView) -> CreatorView {
        locales_in_order()
    }

    fn apply(&self, row: &mut CreatorRow) {
        let country: Option<String> = match &row.country_code {
            Some(code) => Some(market_text(code.as_str())),
            None => None,
        };
        if country.is_none() && filters::is_text(&row.country_error, NO_REGION_NOTE) {
            row.country_checked_at = None;
            row.country_error = None;
        }
        let language: String = text::to_upper(row.language_code.as_str());
        let home: Option<String> = filters::market_of_upper(language.as_str());
        row.country_code = joins::first_text(&home, &country);
    }
}

impl Database {
    /// Brings the saved countries of all creators into order.
    pub fn normalize_saved_locales(&mut self)
        requires
            old(self)@.wf(),
        ensures
            final(self)@.wf(),
            final(self)@ == (DatabaseView {
                creators: old(self)@.creators.map_values(locales_in_order()),
                ..old(self)@
            }),
    {
        let ghost start = self@;
        table::update_rows(&mut self.creators, &OrderLocales {  });
        proof {
            lemma_creators_only(start, locales_in_order());
        }
    }
}

} // verus!
