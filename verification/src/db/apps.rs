//! The table of apps.

use vstd::prelude::*;
use crate::db::rows;
use crate::db::rows::{AppIs, AppPolicy, AppRow, AppView};
use crate::db::table;
use crate::db::table::RowChange;
use crate::text;

verus! {

/// An app that was just seen for the first time.
pub open spec fn new_app(name: Seq<char>, now: Seq<char>, policy: AppPolicy) -> AppView {
    AppView { name: name, first_seen_at: now, last_seen_at: now, policy: policy }
}

/// The named app was seen.
pub open spec fn seen(name: Seq<char>, now: Seq<char>) -> spec_fn(AppView) -> AppView {
    |a: AppView|
        if a.name == name {
            AppView { last_seen_at: now, ..a }
        } else {
            a
        }
}

/// The table after the named app was seen.
pub open spec fn with_app_seen(apps: Seq<AppView>, name: Seq<char>, now: Seq<char>) -> Seq<
    AppView,
> {
    if rows::has_app(apps, name) {
        apps.map_values(seen(name, now))
    } else {
        apps.push(new_app(name, now, AppPolicy::Neutral))
    }
}

/// The named app was seen, and its policy is set.
pub open spec fn ruled(name: Seq<char>, now: Seq<char>, policy: AppPolicy) -> spec_fn(
    AppView,
) -> AppView {
    |a: AppView|
        if a.name == name {
            AppView { last_seen_at: now, policy: policy, ..a }
        } else {
            a
        }
}

/// The table after the policy of the named app was set.
pub open spec fn with_policy(
    apps: Seq<AppView>,
    name: Seq<char>,
    now: Seq<char>,
    policy: AppPolicy,
) -> Seq<AppView> {
    if rows::has_app(apps, name) {
        apps.map_values(ruled(name, now, policy))
    } else {
        apps.push(new_app(name, now, policy))
    }
}

struct SeeApp<'a> {
    name: &'a str,
    now: &'a str,
}

impl<'a> RowChange<AppRow> for SeeApp<'a> {
    closed spec fn changed(&self) -> spec_fn(AppView) -> AppView {
        seen(self.name@, self.now@)
    }

    fn apply(&self, row: &mut AppRow) {
        if text::same(row.name.as_str(), self.name) {
            row.last_seen_at = self.now.to_string();
        }
    }
}

struct RuleApp<'a> {
    name: &'a str,
    now: &'a str,
    policy: AppPolicy,
}

impl<'a> RowChange<AppRow> for RuleApp<'a> {
    closed spec fn changed(&self) -> spec_fn(AppView) -> AppView {
        ruled(self.name@, self.now@, self.policy)
    }

    fn apply(&self, row: &mut AppRow) {
        if text::same(row.name.as_str(), self.name) {
            row.last_seen_at = self.now.to_string();
            row.policy = self.policy;
        }
    }
}

fn add_app(apps: &mut Vec<AppRow>, name: &str, now: &str, policy: AppPolicy)
    ensures
        table::views(final(apps)@) == table::views(old(apps)@).push(
            new_app(name@, now@, policy),
        ),
{
    let ghost before = apps@;
    let row: AppRow = AppRow {
        name: name.to_string(),
        first_seen_at: now.to_string(),
        last_seen_at: now.to_string(),
        policy,
    };
    apps.push(row);
    assert(table::views(apps@) =~= table::views(before).push(row@));
}

/// Notes that the named app was seen.
pub fn see_app(apps: &mut Vec<AppRow>, name: &str, now: &str)
    ensures
        table::views(final(apps)@) == with_app_seen(table::views(old(apps)@), name@, now@),
{
    if table::any_row(apps, &AppIs { name }) {
        table::update_rows(apps, &SeeApp { name, now });
    } else {
        add_app(apps, name, now, AppPolicy::Neutral);
    }
}

/// Sets the policy of the named app.
pub fn rule_app(apps: &mut Vec<AppRow>, name: &str, now: &str, policy: AppPolicy)
    ensures
        table::views(final(apps)@) == with_policy(table::views(old(apps)@), name@, now@, policy),
{
    if table::any_row(apps, &AppIs { name }) {
        table::update_rows(apps, &RuleApp { name, now, policy });
    } else {
        add_app(apps, name, now, policy);
    }
}

/// Adds the named app, unless it is there.
pub fn ensure_app(apps: &mut Vec<AppRow>, name: &str, now: &str) -> (added: bool)
    ensures
        added == !rows::has_app(table::views(old(apps)@), name@),
        table::views(final(apps)@) == if added {
            table::views(old(apps)@).push(new_app(name@, now@, AppPolicy::Neutral))
        } else {
            table::views(old(apps)@)
        },
{
    if table::any_row(apps, &AppIs { name }) {
        false
    } else {
        add_app(apps, name, now, AppPolicy::Neutral);
        true
    }
}

/// The policy of the named app; apps that are not there are neutral.
pub open spec fn policy_named(apps: Seq<AppView>, name: Seq<char>) -> AppPolicy {
    match table::first(apps, rows::app_is(name)) {
        Some(a) => a.policy,
        None => AppPolicy::Neutral,
    }
}

/// The policy of the named app.
pub fn find_policy(apps: &Vec<AppRow>, name: &str) -> (r: AppPolicy)
    ensures
        r == policy_named(table::views(apps@), name@),
{
    match table::find_row(apps, &AppIs { name }) {
        Some(i) => apps[i].policy,
        None => AppPolicy::Neutral,
    }
}

// ---------------------------------------------------------------------------
// What stays
// ---------------------------------------------------------------------------
proof fn lemma_push_app(apps: Seq<AppView>, app: AppView)
    requires
        table::distinct_by(apps, rows::app_key()),
        !rows::has_app(apps, app.name),
    ensures
        table::distinct_by(apps.push(app), rows::app_key()),
        forall|n: Seq<char>|
            #[trigger] rows::has_app(apps.push(app), n) == (rows::has_app(apps, n) || n
                == app.name),
{
    let key = rows::app_key();
    assert forall|i: int| 0 <= i < apps.len() implies key(#[trigger] apps[i]) != key(app) by {
        if apps[i].name == app.name {
            assert(rows::app_is(app.name)(apps[i]));
        }
    }
    table::lemma_distinct_push(apps, app, key);
    assert forall|n: Seq<char>|
        #[trigger] rows::has_app(apps.push(app), n) == (rows::has_app(apps, n) || n
            == app.name) by {
        table::lemma_some_row_push(apps, app, rows::app_is(n));
    }
}

/// Seeing an app adds at most that app, and takes none away.
pub proof fn lemma_with_app_seen(apps: Seq<AppView>, name: Seq<char>, now: Seq<char>)
    requires
        table::distinct_by(apps, rows::app_key()),
    ensures
        table::distinct_by(with_app_seen(apps, name, now), rows::app_key()),
        forall|n: Seq<char>|
            #[trigger] rows::has_app(with_app_seen(apps, name, now), n) == (rows::has_app(apps, n)
                || n == name),
{
    if rows::has_app(apps, name) {
        table::lemma_distinct_map(apps, seen(name, now), rows::app_key());
        assert forall|n: Seq<char>|
            #[trigger] rows::has_app(with_app_seen(apps, name, now), n) == (rows::has_app(apps, n)
                || n == name) by {
            table::lemma_some_row_map(apps, seen(name, now), rows::app_is(n));
        }
    } else {
        lemma_push_app(apps, new_app(name, now, AppPolicy::Neutral));
    }
}

/// Setting a policy adds at most that app, and takes none away.
pub proof fn lemma_with_policy(
    apps: Seq<AppView>,
    name: Seq<char>,
    now: Seq<char>,
    policy: AppPolicy,
)
    requires
        table::distinct_by(apps, rows::app_key()),
    ensures
        table::distinct_by(with_policy(apps, name, now, policy), rows::app_key()),
        forall|n: Seq<char>|
            #[trigger] rows::has_app(with_policy(apps, name, now, policy), n) == (rows::has_app(
                apps,
                n,
            ) || n == name),
{
    if rows::has_app(apps, name) {
        table::lemma_distinct_map(apps, ruled(name, now, policy), rows::app_key());
        assert forall|n: Seq<char>|
            #[trigger] rows::has_app(with_policy(apps, name, now, policy), n) == (rows::has_app(
                apps,
                n,
            ) || n == name) by {
            table::lemma_some_row_map(apps, ruled(name, now, policy), rows::app_is(n));
        }
    } else {
        lemma_push_app(apps, new_app(name, now, policy));
    }
}

/// Adding an app that is not there adds that app only.
pub proof fn lemma_new_app(apps: Seq<AppView>, name: Seq<char>, now: Seq<char>)
    requires
        table::distinct_by(apps, rows::app_key()),
        !rows::has_app(apps, name),
    ensures
        table::distinct_by(apps.push(new_app(name, now, AppPolicy::Neutral)), rows::app_key()),
        forall|n: Seq<char>|
            #[trigger] rows::has_app(apps.push(new_app(name, now, AppPolicy::Neutral)), n) == (
            rows::has_app(apps, n) || n == name),
{
    lemma_push_app(apps, new_app(name, now, AppPolicy::Neutral));
}

} // verus!
