//! Jobs together with what is known of the creators and apps they belong to.

use vstd::prelude::*;
use crate::db::rows;
use crate::db::rows::{
    AppPolicy, AppRow, AppView, CreatorIs, CreatorRow, CreatorView, QueueRow, QueueView,
};
use crate::db::table;
use crate::db::table::RowTest;
use crate::models;
use crate::text;
use crate::text::CharClass;

verus! {

/// The first of the two texts that is there.
pub open spec fn or_else(a: Option<Seq<char>>, b: Option<Seq<char>>) -> Option<Seq<char>> {
    if a is Some {
        a
    } else {
        b
    }
}

/// The text, or the empty text.
pub open spec fn or_blank(t: Option<Seq<char>>) -> Seq<char> {
    match t {
        Some(t) => t,
        None => Seq::empty(),
    }
}

/// A copy of the first of the two texts that is there.
pub fn first_text(a: &Option<String>, b: &Option<String>) -> (r: Option<String>)
    ensures
        models::opt_text(r) == or_else(models::opt_text(*a), models::opt_text(*b)),
{
    match a {
        Some(t) => Some(t.clone()),
        None => models::copy_opt(b),
    }
}

/// The text without spaces around it, where something is left of it.
pub open spec fn unspaced(t: Option<Seq<char>>) -> Option<Seq<char>> {
    match t {
        Some(t) => if text::trim_both(t, CharClass::Only(' ')).len() > 0 {
            Some(text::trim_both(t, CharClass::Only(' ')))
        } else {
            None
        },
        None => None,
    }
}

/// The text without spaces around it, where something is left of it.
pub fn unspaced_of(t: &Option<String>) -> (r: Option<String>)
    ensures
        models::opt_text(r) == unspaced(models::opt_text(*t)),
{
    match t {
        Some(t) => {
            let trimmed: String = text::trim_both_of(t.as_str(), CharClass::Only(' '));
            if text::empty(trimmed.as_str()) {
                None
            } else {
                Some(trimmed)
            }
        },
        None => None,
    }
}

// ---------------------------------------------------------------------------
// What is known of a job
// ---------------------------------------------------------------------------
/// The creator with the handle, if there is one.
pub open spec fn creator_named(creators: Seq<CreatorView>, handle: Option<Seq<char>>) -> Option<
    CreatorView,
> {
    match handle {
        Some(h) => table::first(creators, rows::creator_is(h)),
        None => None,
    }
}

pub open spec fn app_of(c: Option<CreatorView>) -> Option<Seq<char>> {
    match c {
        Some(c) => c.promoted_app_name,
        None => None,
    }
}

pub open spec fn language_of(c: Option<CreatorView>) -> Option<Seq<char>> {
    match c {
        Some(c) => Some(c.language_code),
        None => None,
    }
}

pub open spec fn country_of(c: Option<CreatorView>) -> Option<Seq<char>> {
    match c {
        Some(c) => c.country_code,
        None => None,
    }
}

/// The app of a job: the one that is expected, else that of the creator it was
/// found at, else its own.
pub open spec fn inferred_app(creators: Seq<CreatorView>, job: QueueView) -> Option<Seq<char>> {
    or_else(
        unspaced(job.expected_app_name),
        or_else(
            app_of(creator_named(creators, job.discovered_from)),
            app_of(creator_named(creators, Some(job.handle))),
        ),
    )
}

/// The language of a job: that of the creator it was found at, else its own.
pub open spec fn inferred_language(creators: Seq<CreatorView>, job: QueueView) -> Option<
    Seq<char>,
> {
    or_else(
        language_of(creator_named(creators, job.discovered_from)),
        language_of(creator_named(creators, Some(job.handle))),
    )
}

/// The country of a job: that of the creator it was found at.
pub open spec fn inferred_country(creators: Seq<CreatorView>, job: QueueView) -> Option<
    Seq<char>,
> {
    country_of(creator_named(creators, job.discovered_from))
}

/// The creator with the handle.
pub fn find_creator<'a>(creators: &'a Vec<CreatorRow>, handle: &Option<String>) -> (r: Option<
    &'a CreatorRow,
>)
    ensures
        match r {
            Some(c) => creator_named(table::views(creators@), models::opt_text(*handle)) == Some(
                c@,
            ),
            None => creator_named(table::views(creators@), models::opt_text(*handle)) is None,
        },
{
    match handle {
        Some(h) => match table::find_row(creators, &CreatorIs { handle: h.as_str() }) {
            Some(i) => Some(&creators[i]),
            None => None,
        },
        None => None,
    }
}

/// The creator with the handle.
pub fn find_own<'a>(creators: &'a Vec<CreatorRow>, handle: &str) -> (r: Option<&'a CreatorRow>)
    ensures
        match r {
            Some(c) => creator_named(table::views(creators@), Some(handle@)) == Some(c@),
            None => creator_named(table::views(creators@), Some(handle@)) is None,
        },
{
    match table::find_row(creators, &CreatorIs { handle }) {
        Some(i) => Some(&creators[i]),
        None => None,
    }
}

/// The app of a job.
pub fn infer_app(creators: &Vec<CreatorRow>, job: &QueueRow) -> (r: Option<String>)
    ensures
        models::opt_text(r) == inferred_app(table::views(creators@), job@),
{
    let expected: Option<String> = unspaced_of(&job.expected_app_name);
    if expected.is_some() {
        return expected;
    }
    if let Some(source) = find_creator(creators, &job.discovered_from) {
        if source.promoted_app_name.is_some() {
            return models::copy_opt(&source.promoted_app_name);
        }
    }
    match find_own(creators, job.handle.as_str()) {
        Some(own) => models::copy_opt(&own.promoted_app_name),
        None => None,
    }
}

/// The language of a job.
pub fn infer_language(creators: &Vec<CreatorRow>, job: &QueueRow) -> (r: Option<String>)
    ensures
        models::opt_text(r) == inferred_language(table::views(creators@), job@),
{
    match find_creator(creators, &job.discovered_from) {
        Some(source) => Some(source.language_code.clone()),
        None => match find_own(creators, job.handle.as_str()) {
            Some(own) => Some(own.language_code.clone()),
            None => None,
        },
    }
}

fn infer_country(creators: &Vec<CreatorRow>, job: &QueueRow) -> (r: Option<String>)
    ensures
        models::opt_text(r) == inferred_country(table::views(creators@), job@),
{
    match find_creator(creators, &job.discovered_from) {
        Some(source) => models::copy_opt(&source.country_code),
        None => None,
    }
}

// ---------------------------------------------------------------------------
// Policies that apply
// ---------------------------------------------------------------------------
/// The app goes by this name, in any case.
pub open spec fn app_called(name: Seq<char>) -> spec_fn(AppView) -> bool {
    |a: AppView| text::same_ignoring_case(a.name, name)
}

struct AppCalled<'a> {
    name: &'a str,
}

impl<'a> RowTest<AppRow> for AppCalled<'a> {
    closed spec fn wanted(&self) -> spec_fn(AppView) -> bool {
        app_called(self.name@)
    }

    fn test(&self, row: &AppRow) -> (r: bool) {
        text::eq_ignoring_case(row.name.as_str(), self.name)
    }
}

/// The policies of the apps that go by the name; one that says nothing where
/// there is no such app.
pub open spec fn policies(apps: Seq<AppView>, name: Seq<char>) -> Seq<Option<AppPolicy>> {
    let called = apps.filter(app_called(name));
    if called.len() == 0 {
        seq![None]
    } else {
        called.map_values(|a: AppView| Some(a.policy))
    }
}

/// The policies of the apps that go by the name.
pub fn find_policies(apps: &Vec<AppRow>, name: &str) -> (r: Vec<Option<AppPolicy>>)
    ensures
        r@ == policies(table::views(apps@), name@),
{
    let hits: Vec<usize> = table::matching_rows(apps, &AppCalled { name });
    let ghost called = table::views(apps@).filter(app_called(name@));
    let mut r: Vec<Option<AppPolicy>> = Vec::new();
    if hits.len() == 0 {
        r.push(None);
        assert(r@ =~= policies(table::views(apps@), name@));
        return r;
    }
    let mut i: usize = 0;
    while i < hits.len()
        invariant
            i <= hits@.len(),
            hits@.len() == called.len(),
            r@.len() == i,
            forall|j: int|
                0 <= j < hits@.len() ==> (#[trigger] hits@[j]) < apps@.len()
                    && apps@[hits@[j] as int]@ == called[j],
            forall|j: int| 0 <= j < i ==> #[trigger] r@[j] == Some(called[j].policy),
        decreases hits@.len() - i,
    {
        r.push(Some(apps[hits[i]].policy));
        i = i + 1;
    }
    assert(r@ =~= policies(table::views(apps@), name@));
    r
}

// ---------------------------------------------------------------------------
// Joined jobs
// ---------------------------------------------------------------------------
/// A job with what is known of it, once for each policy that applies.
pub struct JoinedJob<'a> {
    pub row: &'a QueueRow,
    pub app: Option<String>,
    pub language: Option<String>,
    pub country: Option<String>,
    pub policy: Option<AppPolicy>,
}

/// The mathematical reading of a `JoinedJob`.
pub struct JoinedView {
    pub row: QueueView,
    pub app: Option<Seq<char>>,
    pub language: Option<Seq<char>>,
    pub country: Option<Seq<char>>,
    pub policy: Option<AppPolicy>,
}

impl<'a> View for JoinedJob<'a> {
    type V = JoinedView;

    open spec fn view(&self) -> JoinedView {
        JoinedView {
            row: self.row@,
            app: models::opt_text(self.app),
            language: models::opt_text(self.language),
            country: models::opt_text(self.country),
            policy: self.policy,
        }
    }
}

/// A job with what is known of it, under one policy.
pub open spec fn joined_job(
    creators: Seq<CreatorView>,
    job: QueueView,
    policy: Option<AppPolicy>,
) -> JoinedView {
    JoinedView {
        row: job,
        app: inferred_app(creators, job),
        language: inferred_language(creators, job),
        country: inferred_country(creators, job),
        policy: policy,
    }
}

/// A job with what is known of it, once for each policy that applies.
pub open spec fn joins_of(
    apps: Seq<AppView>,
    creators: Seq<CreatorView>,
    job: QueueView,
) -> Seq<JoinedView> {
    policies(apps, or_blank(inferred_app(creators, job))).map_values(
        |p: Option<AppPolicy>| joined_job(creators, job, p),
    )
}

/// The jobs with what is known of them.
pub open spec fn joined(
    apps: Seq<AppView>,
    creators: Seq<CreatorView>,
    queue: Seq<QueueView>,
) -> Seq<JoinedView>
    decreases queue.len(),
{
    if queue.len() == 0 {
        Seq::empty()
    } else {
        joined(apps, creators, queue.drop_last()) + joins_of(apps, creators, queue.last())
    }
}

fn join_one<'a>(
    apps: &Vec<AppRow>,
    creators: &Vec<CreatorRow>,
    job: &'a QueueRow,
    r: &mut Vec<JoinedJob<'a>>,
)
    ensures
        table::views(final(r)@) == table::views(old(r)@) + joins_of(
            table::views(apps@),
            table::views(creators@),
            job@,
        ),
{
    let app: Option<String> = infer_app(creators, job);
    let name: String = match &app {
        Some(name) => name.clone(),
        None => String::new(),
    };
    assert(name@ =~= or_blank(models::opt_text(app)));
    let language: Option<String> = infer_language(creators, job);
    let country: Option<String> = infer_country(creators, job);
    let found: Vec<Option<AppPolicy>> = find_policies(apps, name.as_str());
    let ghost start = table::views(r@);
    let ghost want = joins_of(table::views(apps@), table::views(creators@), job@);
    let mut i: usize = 0;
    assert(start + want.take(0) =~= start);
    while i < found.len()
        invariant
            i <= found@.len(),
            want.len() == found@.len(),
            want == found@.map_values(
                |p: Option<AppPolicy>| joined_job(table::views(creators@), job@, p),
            ),
            models::opt_text(app) == inferred_app(table::views(creators@), job@),
            models::opt_text(language) == inferred_language(table::views(creators@), job@),
            models::opt_text(country) == inferred_country(table::views(creators@), job@),
            table::views(r@) == start + want.take(i as int),
        decreases found@.len() - i,
    {
        let ghost before = r@;
        let one: JoinedJob<'a> = JoinedJob {
            row: job,
            app: models::copy_opt(&app),
            language: models::copy_opt(&language),
            country: models::copy_opt(&country),
            policy: found[i],
        };
        r.push(one);
        i = i + 1;
        proof {
            assert(one@ == want[i - 1]);
            assert(table::views(r@) =~= table::views(before).push(one@));
            assert(start + want.take(i as int) =~= (start + want.take(i - 1)).push(want[i - 1]));
        }
    }
    assert(want.take(i as int) =~= want);
}

/// The jobs with what is known of them.
pub fn join_queue<'a>(
    apps: &Vec<AppRow>,
    creators: &Vec<CreatorRow>,
    queue: &'a Vec<QueueRow>,
) -> (r: Vec<JoinedJob<'a>>)
    ensures
        table::views(r@) == joined(
            table::views(apps@),
            table::views(creators@),
            table::views(queue@),
        ),
{
    let ghost all = table::views(queue@);
    let mut r: Vec<JoinedJob<'a>> = Vec::new();
    let mut i: usize = 0;
    assert(table::views(r@) =~= joined(
        table::views(apps@),
        table::views(creators@),
        all.take(0),
    ));
    while i < queue.len()
        invariant
            i <= queue@.len(),
            all == table::views(queue@),
            table::views(r@) == joined(
                table::views(apps@),
                table::views(creators@),
                all.take(i as int),
            ),
        decreases queue@.len() - i,
    {
        proof {
            assert(all.take(i + 1).drop_last() =~= all.take(i as int));
            assert(all.take(i + 1).last() == queue@[i as int]@);
        }
        join_one(apps, creators, &queue[i], &mut r);
        i = i + 1;
    }
    assert(all.take(i as int) =~= all);
    r
}

/// Every joined job is a job of the queue with what is known of it.
pub proof fn lemma_joined_members(
    apps: Seq<AppView>,
    creators: Seq<CreatorView>,
    queue: Seq<QueueView>,
)
    ensures
        forall|i: int|
            0 <= i < joined(apps, creators, queue).len() ==> {
                let j = #[trigger] joined(apps, creators, queue)[i];
                &&& queue.contains(j.row)
                &&& j == joined_job(creators, j.row, j.policy)
                &&& policies(apps, or_blank(j.app)).contains(j.policy)
            },
    decreases queue.len(),
{
    if queue.len() > 0 {
        let rest = queue.drop_last();
        lemma_joined_members(apps, creators, rest);
        let a = joined(apps, creators, rest);
        let b = joins_of(apps, creators, queue.last());
        let all = joined(apps, creators, queue);
        assert forall|i: int| 0 <= i < all.len() implies {
            let j = #[trigger] all[i];
            &&& queue.contains(j.row)
            &&& j == joined_job(creators, j.row, j.policy)
            &&& policies(apps, or_blank(j.app)).contains(j.policy)
        } by {
            if i < a.len() {
                assert(all[i] == a[i]);
                assert(rest.contains(a[i].row));
                let k = choose|k: int| 0 <= k < rest.len() && rest[k] == a[i].row;
                assert(queue[k] == rest[k]);
            } else {
                let k = i - a.len();
                assert(all[i] == b[k]);
                let ps = policies(apps, or_blank(inferred_app(creators, queue.last())));
                assert(b[k] == joined_job(creators, queue.last(), ps[k]));
                assert(queue[queue.len() - 1] == queue.last());
                assert(ps.contains(ps[k]));
            }
        }
    }
}

/// Every job of the queue is joined, once for each policy that applies.
pub proof fn lemma_joined_complete(
    apps: Seq<AppView>,
    creators: Seq<CreatorView>,
    queue: Seq<QueueView>,
    k: int,
    policy: Option<AppPolicy>,
)
    requires
        0 <= k < queue.len(),
        policies(apps, or_blank(inferred_app(creators, queue[k]))).contains(policy),
    ensures
        joined(apps, creators, queue).contains(joined_job(creators, queue[k], policy)),
    decreases queue.len(),
{
    let rest = queue.drop_last();
    let a = joined(apps, creators, rest);
    let b = joins_of(apps, creators, queue.last());
    let all = joined(apps, creators, queue);
    let want = joined_job(creators, queue[k], policy);
    if k < rest.len() {
        assert(rest[k] == queue[k]);
        lemma_joined_complete(apps, creators, rest, k, policy);
        let i = choose|i: int| 0 <= i < a.len() && a[i] == want;
        assert(all[i] == a[i]);
    } else {
        let ps = policies(apps, or_blank(inferred_app(creators, queue.last())));
        let m = choose|m: int| 0 <= m < ps.len() && ps[m] == policy;
        assert(b[m] == want);
        assert(all[a.len() + m] == b[m]);
    }
}

} // verus!
