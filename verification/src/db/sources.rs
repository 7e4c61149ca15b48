//! The creators that jobs were found at.

use vstd::prelude::*;
use crate::db::creator_lists;
use crate::db::filters;
use crate::db::items::{QueueSourceViewItem, SourceShown};
use crate::db::joins;
use crate::db::listing;
use crate::db::queue;
use crate::db::rows::{
    AppPolicy, AppRow, CreatorRow, CreatorView, Database, DatabaseView, JobStatus,
    QueueRow, QueueView,
};
use crate::db::table;
use crate::db::table::{EveryRow, RowDisplay, RowKey};
use crate::lists;
use crate::models;
use crate::order;
use crate::ranking;
use crate::ranking::{SortValue, SortView};
use crate::search;
use crate::text;

verus! {

// ---------------------------------------------------------------------------
// Jobs with where they were found
// ---------------------------------------------------------------------------
/// What jobs are put together by: where they were found, and the policy for the
/// app that is promoted there.
pub struct SourceKey {
    pub source: Seq<char>,
    pub policy: Option<AppPolicy>,
}

/// A job under the policy for the app that is promoted where it was found.
pub struct FoundJob<'a> {
    pub row: &'a QueueRow,
    pub source: &'a String,
    pub policy: Option<AppPolicy>,
}

/// The mathematical reading of a `FoundJob`.
pub struct FoundView {
    pub row: QueueView,
    pub source: Seq<char>,
    pub policy: Option<AppPolicy>,
}

impl<'a> View for FoundJob<'a> {
    type V = FoundView;

    open spec fn view(&self) -> FoundView {
        FoundView { row: self.row@, source: self.source@, policy: self.policy }
    }
}

/// The app that is promoted by a creator.
pub open spec fn app_at(creators: Seq<CreatorView>, source: Seq<char>) -> Option<Seq<char>> {
    joins::app_of(joins::creator_named(creators, Some(source)))
}

/// The job was found somewhere, and has the status where one is asked for.
pub open spec fn is_found(status: Option<Seq<char>>, q: QueueView) -> bool {
    &&& q.discovered_from is Some
    &&& status matches Some(s) ==> q.status.text() == s
}

/// The job, once for each policy that applies where it was found.
pub open spec fn finds_of(
    db: DatabaseView,
    status: Option<Seq<char>>,
    q: QueueView,
) -> Seq<FoundView> {
    if is_found(status, q) {
        let source = q.discovered_from->0;
        joins::policies(db.apps, joins::or_blank(app_at(db.creators, source))).map_values(
            |p: Option<AppPolicy>| FoundView { row: q, source: source, policy: p },
        )
    } else {
        Seq::empty()
    }
}

/// The jobs of the queue that were found somewhere.
pub open spec fn finds(
    db: DatabaseView,
    status: Option<Seq<char>>,
    jobs: Seq<QueueView>,
) -> Seq<FoundView>
    decreases jobs.len(),
{
    if jobs.len() == 0 {
        Seq::empty()
    } else {
        finds(db, status, jobs.drop_last()) + finds_of(db, status, jobs.last())
    }
}

fn find_one<'a>(
    apps: &Vec<AppRow>,
    creators: &Vec<CreatorRow>,
    status: &Option<String>,
    job: &'a QueueRow,
    r: &mut Vec<FoundJob<'a>>,
    Ghost(db): Ghost<DatabaseView>,
)
    requires
        db.apps == table::views(apps@),
        db.creators == table::views(creators@),
    ensures
        table::views(final(r)@) == table::views(old(r)@) + finds_of(
            db,
            models::opt_text(*status),
            job@,
        ),
{
    let ghost start = table::views(r@);
    let ghost want = finds_of(db, models::opt_text(*status), job@);
    let source: &'a String = match &job.discovered_from {
        Some(source) => source,
        None => {
            assert(start + want =~= start);
            return;
        },
    };
    if let Some(s) = status {
        if !text::same(job.status.name(), s.as_str()) {
            assert(start + want =~= start);
            return;
        }
    }
    let app: Option<String> = match joins::find_creator(creators, &job.discovered_from) {
        Some(c) => models::copy_opt(&c.promoted_app_name),
        None => None,
    };
    let name: String = queue::blank_if_none(&app);
    let found: Vec<Option<AppPolicy>> = joins::find_policies(apps, name.as_str());
    let mut i: usize = 0;
    assert(start + want.take(0) =~= start);
    while i < found.len()
        invariant
            i <= found@.len(),
            want == found@.map_values(
                |p: Option<AppPolicy>| FoundView { row: job@, source: source@, policy: p },
            ),
            table::views(r@) == start + want.take(i as int),
        decreases found@.len() - i,
    {
        let ghost before = r@;
        r.push(FoundJob { row: job, source, policy: found[i] });
        i = i + 1;
        proof {
            assert(table::views(r@) =~= table::views(before).push(want[i - 1]));
            assert(start + want.take(i as int) =~= (start + want.take(i - 1)).push(want[i - 1]));
        }
    }
    assert(want.take(i as int) =~= want);
}

// ---------------------------------------------------------------------------
// Putting jobs together
// ---------------------------------------------------------------------------
/// The job belongs to the source under the policy.
pub open spec fn belongs(key: SourceKey) -> spec_fn(FoundView) -> bool {
    |f: FoundView| f.source == key.source && f.policy == key.policy
}

/// The job belongs to the source under the policy, and is not done.
pub open spec fn belongs_undone(key: SourceKey) -> spec_fn(FoundView) -> bool {
    |f: FoundView|
        f.source == key.source && f.policy == key.policy && f.row.status != JobStatus::Done
}

pub open spec fn key_of_find(f: FoundView) -> SourceKey {
    SourceKey { source: f.source, policy: f.policy }
}

/// The sources of the jobs, each once under each policy.
pub open spec fn source_keys(found: Seq<FoundView>) -> Seq<SourceKey>
    decreases found.len(),
{
    if found.len() == 0 {
        Seq::empty()
    } else {
        let rest = source_keys(found.drop_last());
        if rest.contains(key_of_find(found.last())) {
            rest
        } else {
            rest.push(key_of_find(found.last()))
        }
    }
}

/// The earlier of two moments, where one may be missing.
pub open spec fn earlier_of(a: Option<Seq<char>>, b: Seq<char>) -> Option<Seq<char>> {
    match a {
        Some(a) => if order::before(b, a) {
            Some(b)
        } else {
            Some(a)
        },
        None => Some(b),
    }
}

/// When the first of the jobs was found.
pub open spec fn oldest(found: Seq<FoundView>) -> Option<Seq<char>>
    decreases found.len(),
{
    if found.len() == 0 {
        None
    } else {
        earlier_of(oldest(found.drop_last()), found.last().row.found_at)
    }
}

/// One of the jobs was put first by hand.
pub open spec fn some_manual(found: Seq<FoundView>) -> bool {
    exists|i: int| 0 <= i < found.len() && (#[trigger] found[i]).row.manual_priority
}

/// The jobs that were found at one creator under one policy.
pub struct SourceGroup {
    pub source: String,
    pub policy: Option<AppPolicy>,
    pub item_count: usize,
    pub removable_count: usize,
    pub oldest: String,
    pub manual: bool,
    pub country: Option<String>,
    pub app: Option<String>,
}

/// The mathematical reading of a `SourceGroup`.
pub struct GroupView {
    pub source: Seq<char>,
    pub policy: Option<AppPolicy>,
    pub item_count: nat,
    pub removable_count: nat,
    pub oldest: Seq<char>,
    pub manual: bool,
    pub country: Option<Seq<char>>,
    pub app: Option<Seq<char>>,
}

impl View for SourceGroup {
    type V = GroupView;

    open spec fn view(&self) -> GroupView {
        GroupView {
            source: self.source@,
            policy: self.policy,
            item_count: self.item_count as nat,
            removable_count: self.removable_count as nat,
            oldest: self.oldest@,
            manual: self.manual,
            country: models::opt_text(self.country),
            app: models::opt_text(self.app),
        }
    }
}

/// The jobs that were found at one creator under one policy.
pub open spec fn group_of(
    creators: Seq<CreatorView>,
    found: Seq<FoundView>,
    key: SourceKey,
) -> GroupView {
    GroupView {
        source: key.source,
        policy: key.policy,
        item_count: lists::count(found, belongs(key)),
        removable_count: lists::count(found, belongs_undone(key)),
        oldest: joins::or_blank(oldest(found.filter(belongs(key)))),
        manual: some_manual(found.filter(belongs(key))),
        country: joins::country_of(joins::creator_named(creators, Some(key.source))),
        app: app_at(creators, key.source),
    }
}

/// All jobs, put together.
pub open spec fn groups(creators: Seq<CreatorView>, found: Seq<FoundView>) -> Seq<GroupView> {
    source_keys(found).map_values(|k: SourceKey| group_of(creators, found, k))
}

proof fn lemma_oldest_push(found: Seq<FoundView>, f: FoundView)
    ensures
        oldest(found.push(f)) == earlier_of(oldest(found), f.row.found_at),
        some_manual(found.push(f)) == (some_manual(found) || f.row.manual_priority),
{
    let more = found.push(f);
    assert(more.drop_last() =~= found);
    if some_manual(found) {
        let i = choose|i: int| 0 <= i < found.len() && (#[trigger] found[i]).row.manual_priority;
        assert(more[i] == found[i]);
    }
    if f.row.manual_priority {
        assert(more[found.len() as int] == f);
    }
    if some_manual(more) {
        let i = choose|i: int| 0 <= i < more.len() && (#[trigger] more[i]).row.manual_priority;
        if i < found.len() {
            assert(found[i] == more[i]);
        }
    }
}

fn same_policy(a: Option<AppPolicy>, b: Option<AppPolicy>) -> (r: bool)
    ensures
        r == (a == b),
{
    match (a, b) {
        (Some(x), Some(y)) => x == y,
        (None, None) => true,
        _ => false,
    }
}

fn group_jobs<'a>(
    creators: &Vec<CreatorRow>,
    found: &Vec<FoundJob<'a>>,
    source: &String,
    policy: Option<AppPolicy>,
) -> (r: SourceGroup)
    ensures
        r@ == group_of(
            table::views(creators@),
            table::views(found@),
            SourceKey { source: source@, policy: policy },
        ),
{
    let ghost key = SourceKey { source: source@, policy: policy };
    let ghost all = table::views(found@);
    let ghost p = belongs(key);
    let ghost undone = belongs_undone(key);
    let mut items: usize = 0;
    let mut removable: usize = 0;
    let mut first: Option<String> = None;
    let mut manual: bool = false;
    let mut i: usize = 0;
    proof {
        reveal(Seq::filter);
        assert(all.take(0).filter(p) =~= Seq::empty());
        assert(all.take(0).filter(undone) =~= Seq::empty());
    }
    while i < found.len()
        invariant
            i <= found@.len(),
            items <= i,
            removable <= i,
            all == table::views(found@),
            key == (SourceKey { source: source@, policy: policy }),
            p == belongs(key),
            undone == belongs_undone(key),
            items == lists::count(all.take(i as int), p),
            removable == lists::count(all.take(i as int), undone),
            models::opt_text(first) == oldest(all.take(i as int).filter(p)),
            manual == some_manual(all.take(i as int).filter(p)),
        decreases found@.len() - i,
    {
        let ghost before = all.take(i as int);
        let f: &FoundJob<'a> = &found[i];
        proof {
            assert(all.take(i + 1) =~= before.push(all[i as int]));
            assert(all[i as int] == f@);
            lists::lemma_count_push(before, p, f@);
            lists::lemma_count_push(before, undone, f@);
            search::lemma_filter_push(before, p, f@);
            lemma_oldest_push(before.filter(p), f@);
        }
        if text::same(f.source.as_str(), source.as_str()) && same_policy(f.policy, policy) {
            items = items + 1;
            let done: bool = match f.row.status {
                JobStatus::Done => true,
                _ => false,
            };
            if !done {
                removable = removable + 1;
            }
            if f.row.manual_priority {
                manual = true;
            }
            let earlier: bool = match &first {
                Some(at) => order::comes_before(f.row.found_at.as_str(), at.as_str()),
                None => true,
            };
            if earlier {
                first = Some(f.row.found_at.clone());
            }
        }
        i = i + 1;
    }
    assert(all.take(i as int) =~= all);
    let own: Option<String> = Some(source.clone());
    let creator: Option<&CreatorRow> = joins::find_creator(creators, &own);
    SourceGroup {
        source: source.clone(),
        policy,
        item_count: items,
        removable_count: removable,
        oldest: queue::blank_if_none(&first),
        manual,
        country: match creator {
            Some(c) => models::copy_opt(&c.country_code),
            None => None,
        },
        app: match creator {
            Some(c) => models::copy_opt(&c.promoted_app_name),
            None => None,
        },
    }
}

struct PlainKey<'a> {
    source: &'a String,
    policy: Option<AppPolicy>,
}

impl<'a> View for PlainKey<'a> {
    type V = SourceKey;

    closed spec fn view(&self) -> SourceKey {
        SourceKey { source: self.source@, policy: self.policy }
    }
}

fn has_key<'a>(keys: &Vec<PlainKey<'a>>, source: &String, policy: Option<AppPolicy>) -> (r: bool)
    ensures
        r == table::views(keys@).contains(SourceKey { source: source@, policy: policy }),
{
    let ghost all = table::views(keys@);
    let ghost key = SourceKey { source: source@, policy: policy };
    let mut i: usize = 0;
    while i < keys.len()
        invariant
            i <= keys@.len(),
            all == table::views(keys@),
            key == (SourceKey { source: source@, policy: policy }),
            forall|j: int| 0 <= j < i ==> all[j] != key,
        decreases keys@.len() - i,
    {
        assert(all[i as int] == keys@[i as int]@);
        if text::same(keys[i].source.as_str(), source.as_str()) && same_policy(
            keys[i].policy,
            policy,
        ) {
            assert(all[i as int] == key);
            return true;
        }
        i = i + 1;
    }
    false
}

fn list_keys<'a>(found: &Vec<FoundJob<'a>>) -> (r: Vec<PlainKey<'a>>)
    ensures
        table::views(r@) == source_keys(table::views(found@)),
{
    let ghost all = table::views(found@);
    let mut r: Vec<PlainKey<'a>> = Vec::new();
    let mut i: usize = 0;
    assert(table::views(r@) =~= source_keys(all.take(0)));
    while i < found.len()
        invariant
            i <= found@.len(),
            all == table::views(found@),
            table::views(r@) == source_keys(all.take(i as int)),
        decreases found@.len() - i,
    {
        let ghost before = r@;
        proof {
            assert(all.take(i + 1).drop_last() =~= all.take(i as int));
            assert(all.take(i + 1).last() == found@[i as int]@);
        }
        let source: &'a String = found[i].source;
        let policy: Option<AppPolicy> = found[i].policy;
        if !has_key(&r, source, policy) {
            let key: PlainKey<'a> = PlainKey { source, policy };
            r.push(key);
            assert(table::views(r@) =~= table::views(before).push(key@));
        }
        i = i + 1;
    }
    assert(all.take(i as int) =~= all);
    r
}

// ---------------------------------------------------------------------------
// The list
// ---------------------------------------------------------------------------
pub open spec fn policy_value(policy: Option<AppPolicy>) -> SortView {
    match policy {
        Some(p) => SortView::Text(p.text()),
        None => SortView::Missing,
    }
}

/// Sources are ordered as the jobs found there are taken, and where that is
/// equal by handle and policy.
pub open spec fn source_order() -> spec_fn(GroupView) -> Seq<SortView> {
    |g: GroupView|
        seq![
            SortView::Number(
                if g.manual {
                    1
                } else {
                    0
                },
            ),
            SortView::Number(
                if g.policy == Some(AppPolicy::Whitelist) {
                    0
                } else {
                    1
                },
            ),
            SortView::Text(g.oldest),
            SortView::Text(g.source),
            policy_value(g.policy),
        ]
}

pub open spec fn source_directions() -> Seq<bool> {
    seq![true, false, false, false, false]
}

struct SourceOrder {}

impl RowKey<SourceGroup> for SourceOrder {
    closed spec fn key(&self) -> spec_fn(GroupView) -> Seq<SortView> {
        source_order()
    }

    closed spec fn directions(&self) -> Seq<bool> {
        source_directions()
    }

    fn key_of(&self, row: &SourceGroup) -> (r: Vec<SortValue>) {
        let manual: i128 = if row.manual {
            1
        } else {
            0
        };
        let turn: i128 = match row.policy {
            Some(AppPolicy::Whitelist) => 0,
            _ => 1,
        };
        let policy: SortValue = match row.policy {
            Some(p) => SortValue::Text(p.name().to_string()),
            None => SortValue::Missing,
        };
        let r: Vec<SortValue> = vec![
            SortValue::Number(manual),
            SortValue::Number(turn),
            SortValue::Text(row.oldest.clone()),
            SortValue::Text(row.source.clone()),
            policy,
        ];
        assert(ranking::key_view(r@) =~= source_order()(row@));
        r
    }

    fn descending(&self) -> (r: Vec<bool>) {
        let r: Vec<bool> = vec![true, false, false, false, false];
        assert(r@ =~= source_directions());
        r
    }
}

/// A source, as lists show it.
pub open spec fn source_shown() -> spec_fn(GroupView) -> SourceShown {
    |g: GroupView|
        SourceShown {
            source_handle: g.source,
            item_count: g.item_count as usize,
            removable_count: g.removable_count as usize,
            oldest_found_at: g.oldest,
            country_code: g.country,
            app_name: g.app,
            app_policy: listing::policy_shown(g.policy),
        }
}

struct SourceDisplay {}

impl RowDisplay<SourceGroup, QueueSourceViewItem> for SourceDisplay {
    closed spec fn shown(&self) -> spec_fn(GroupView) -> SourceShown {
        source_shown()
    }

    fn show(&self, row: &SourceGroup) -> (r: QueueSourceViewItem) {
        QueueSourceViewItem {
            source_handle: row.source.clone(),
            item_count: row.item_count,
            removable_count: row.removable_count,
            oldest_found_at: row.oldest.clone(),
            country_code: models::copy_opt(&row.country),
            app_name: models::copy_opt(&row.app),
            app_policy: listing::policy_or_neutral(row.policy),
        }
    }
}

/// Where the job was found, if it has the status where one is asked for.
pub open spec fn found_at_source(status: Option<Seq<char>>) -> spec_fn(QueueView) -> Option<
    Seq<char>,
> {
    |q: QueueView|
        if is_found(status, q) {
            q.discovered_from
        } else {
            None
        }
}

impl Database {
    /// The creators that jobs were found at, with how many there are.
    pub fn list_queue_source_view(&self, status: Option<&str>, limit: usize, offset: usize) -> (r:
        Vec<QueueSourceViewItem>)
        ensures
            table::views(r@) == table::page(
                table::chosen(
                    groups(
                        self@.creators,
                        finds(self@, models::non_blank(filters::opt_str(status)), self@.queue),
                    ),
                    table::always(),
                    source_order(),
                    source_directions(),
                ),
                listing::at_most(limit, listing::LIST_LIMIT),
                listing::skipped(offset),
            ).map_values(source_shown()),
    {
        let status: Option<String> = filters::trimmed_str(status);
        let ghost asked = models::opt_text(status);
        let ghost jobs = self@.queue;
        let mut found: Vec<FoundJob<'_>> = Vec::new();
        let mut i: usize = 0;
        assert(table::views(found@) =~= finds(self@, asked, jobs.take(0)));
        while i < self.queue.len()
            invariant
                i <= self.queue@.len(),
                jobs == self@.queue,
                asked == models::opt_text(status),
                table::views(found@) == finds(self@, asked, jobs.take(i as int)),
            decreases self.queue@.len() - i,
        {
            proof {
                assert(jobs.take(i + 1).drop_last() =~= jobs.take(i as int));
                assert(jobs.take(i + 1).last() == self.queue@[i as int]@);
            }
            find_one(
                &self.apps,
                &self.creators,
                &status,
                &self.queue[i],
                &mut found,
                Ghost(self@),
            );
            i = i + 1;
        }
        assert(jobs.take(i as int) =~= jobs);
        let keys: Vec<PlainKey<'_>> = list_keys(&found);
        let ghost want = groups(self@.creators, table::views(found@));
        let mut together: Vec<SourceGroup> = Vec::new();
        let mut k: usize = 0;
        while k < keys.len()
            invariant
                k <= keys@.len(),
                table::views(keys@) == source_keys(table::views(found@)),
                want == groups(self@.creators, table::views(found@)),
                table::views(together@) == want.take(k as int),
            decreases keys@.len() - k,
        {
            let ghost before = together@;
            together.push(
                group_jobs(&self.creators, &found, keys[k].source, keys[k].policy),
            );
            k = k + 1;
            proof {
                assert(source_keys(table::views(found@))[k - 1] == keys@[k - 1]@);
                assert(table::views(together@) =~= table::views(before).push(want[k - 1]));
                assert(want.take(k as int) =~= want.take(k - 1).push(want[k - 1]));
            }
        }
        assert(want.take(k as int) =~= want);
        table::list_rows(
            &together,
            &EveryRow {  },
            &SourceOrder {  },
            &SourceDisplay {  },
            listing::capped(limit, listing::LIST_LIMIT),
            listing::start_of(offset),
        )
    }

    /// At how many creators jobs were found.
    pub fn count_queue_source_view(&self, status: Option<&str>) -> (r: usize)
        ensures
            r == order::sorted_set(
                lists::present(
                    self@.queue.map_values(
                        found_at_source(models::non_blank(filters::opt_str(status))),
                    ),
                ),
            ).len(),
    {
        let status: Option<String> = filters::trimmed_str(status);
        let ghost asked = models::opt_text(status);
        let ghost all = self@.queue.map_values(found_at_source(asked));
        let mut found: Vec<String> = Vec::new();
        let mut i: usize = 0;
        assert(search::texts(found@) =~= lists::present(all.take(0)));
        while i < self.queue.len()
            invariant
                i <= self.queue@.len(),
                asked == models::opt_text(status),
                all == self@.queue.map_values(found_at_source(asked)),
                search::texts(found@) == lists::present(all.take(i as int)),
            decreases self.queue@.len() - i,
        {
            let ghost before = found@;
            proof {
                assert(all.take(i + 1) =~= all.take(i as int).push(all[i as int]));
                lists::lemma_present_push(all.take(i as int), all[i as int]);
            }
            let asked_for: bool = match &status {
                Some(s) => text::same(self.queue[i].status.name(), s.as_str()),
                None => true,
            };
            if let Some(source) = &self.queue[i].discovered_from {
                if asked_for {
                    found.push(source.clone());
                    assert(search::texts(found@) =~= search::texts(before).push(source@));
                }
            }
            i = i + 1;
        }
        assert(all.take(i as int) =~= all);
        let sorted: Vec<String> = order::sort_texts(&found);
        assert(sorted@.len() == search::texts(sorted@).len());
        sorted.len()
    }
}

// ---------------------------------------------------------------------------
// The countries of the sources
// ---------------------------------------------------------------------------
/// The country of the creator that an open job was found at, where it is known.
pub open spec fn open_parent_country(creators: Seq<CreatorView>) -> spec_fn(QueueView) -> Option<
    Seq<char>,
> {
    |q: QueueView|
        if queue::is_open(q.status) {
            match joins::creator_named(creators, q.discovered_from) {
                Some(c) => creator_lists::known_country()(c),
                None => None,
            }
        } else {
            None
        }
}

/// The creator that an open job was found at, if its country is not known and
/// nobody has asked for it.
pub open spec fn open_parent_unknown(creators: Seq<CreatorView>) -> spec_fn(QueueView) -> Option<
    Seq<char>,
> {
    |q: QueueView|
        if queue::is_open(q.status) {
            match joins::creator_named(creators, q.discovered_from) {
                Some(c) => if joins::unspaced(c.country_code) is None && c.country_checked_at
                    is None {
                    q.discovered_from
                } else {
                    None
                },
                None => None,
            }
        } else {
            None
        }
}

fn open_job(row: &QueueRow) -> (r: bool)
    ensures
        r == queue::is_open(row@.status),
{
    match row.status {
        JobStatus::Pending | JobStatus::Retry => true,
        _ => false,
    }
}

impl Database {
    /// The countries of the creators that open jobs were found at, each once.
    pub fn list_queue_parent_countries(&self) -> (r: Vec<String>)
        ensures
            search::texts(r@) == order::sorted_set(
                lists::present(self@.queue.map_values(open_parent_country(self@.creators))),
            ),
    {
        let ghost all = self@.queue.map_values(open_parent_country(self@.creators));
        let mut found: Vec<String> = Vec::new();
        let mut i: usize = 0;
        assert(search::texts(found@) =~= lists::present(all.take(0)));
        while i < self.queue.len()
            invariant
                i <= self.queue@.len(),
                all == self@.queue.map_values(open_parent_country(self@.creators)),
                search::texts(found@) == lists::present(all.take(i as int)),
            decreases self.queue@.len() - i,
        {
            let ghost before = found@;
            proof {
                assert(all.take(i + 1) =~= all.take(i as int).push(all[i as int]));
                lists::lemma_present_push(all.take(i as int), all[i as int]);
            }
            let job: &QueueRow = &self.queue[i];
            if open_job(job) {
                if let Some(c) = joins::find_creator(&self.creators, &job.discovered_from) {
                    if let Some(code) = creator_lists::country_known(c) {
                        found.push(code);
                        assert(search::texts(found@) =~= search::texts(before).push(code@));
                    }
                }
            }
            i = i + 1;
        }
        assert(all.take(i as int) =~= all);
        order::sort_texts(&found)
    }

    /// The creators that open jobs were found at and whose country nobody has
    /// asked for, each once.
    pub fn list_queue_parents_needing_country(&self) -> (r: Vec<String>)
        ensures
            search::texts(r@) == order::sorted_set(
                lists::present(self@.queue.map_values(open_parent_unknown(self@.creators))),
            ),
    {
        let ghost all = self@.queue.map_values(open_parent_unknown(self@.creators));
        let mut found: Vec<String> = Vec::new();
        let mut i: usize = 0;
        assert(search::texts(found@) =~= lists::present(all.take(0)));
        while i < self.queue.len()
            invariant
                i <= self.queue@.len(),
                all == self@.queue.map_values(open_parent_unknown(self@.creators)),
                search::texts(found@) == lists::present(all.take(i as int)),
            decreases self.queue@.len() - i,
        {
            let ghost before = found@;
            proof {
                assert(all.take(i + 1) =~= all.take(i as int).push(all[i as int]));
                lists::lemma_present_push(all.take(i as int), all[i as int]);
            }
            let job: &QueueRow = &self.queue[i];
            if open_job(job) {
                if let Some(c) = joins::find_creator(&self.creators, &job.discovered_from) {
                    let known: bool = joins::unspaced_of(&c.country_code).is_some();
                    if !known && c.country_checked_at.is_none() {
                        if let Some(source) = &job.discovered_from {
                            found.push(source.clone());
                            assert(search::texts(found@) =~= search::texts(before).push(source@));
                        }
                    }
                }
            }
            i = i + 1;
        }
        assert(all.take(i as int) =~= all);
        order::sort_texts(&found)
    }
}

} // verus!
