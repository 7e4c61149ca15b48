//! What lists of languages, countries, apps, accounts, seeds and items show.

use vstd::prelude::*;
use crate::db::claim_laws;
use crate::db::creator_lists;
use crate::db::frontier;
use crate::db::frontier_lists;
use crate::db::items::{
    AppSummary, FrontierBucketItem, FrontierRunItemView, FrontierRunRecord, LanguageReviewCreator,
};
use crate::db::job_list_laws;
use crate::db::list_laws;
use crate::db::queue;
use crate::db::record;
use crate::db::rows::{
    AppView, BucketView, CreatorView, Database, FollowView, ItemView, RunRow,
};
use crate::db::table;
use crate::lists;
use crate::models;
use crate::order;
use crate::ranking;
use crate::ranking::SortView;
use crate::text;

verus! {

// ---------------------------------------------------------------------------
// Languages and countries
// ---------------------------------------------------------------------------
/// The languages of the creators are listed in ascending order and each once, but
/// for those that are empty or not known.
pub proof fn law_languages_of_creators(db: Database, code: Seq<char>)
    ensures
        ({
            let all = order::sorted_set(
                lists::present(db@.creators.map_values(creator_lists::known_language())),
            );
            &&& order::ascending(all)
            &&& all.contains(code) <==> code.len() > 0 && code != "UNKNOWN"@ && exists|i: int|
                0 <= i < db.creators@.len() && (#[trigger] db.creators@[i]).language_code@ == code
        }),
{
    let found = db@.creators.map_values(creator_lists::known_language());
    job_list_laws::lemma_set_of(found, code);
    if found.contains(Some(code)) {
        let i = choose|i: int| 0 <= i < found.len() && found[i] == Some(code);
        assert(db@.creators[i] == db.creators@[i]@);
        assert(db.creators@[i].language_code@ == code);
    }
    if code.len() > 0 && code != "UNKNOWN"@ && exists|i: int|
        0 <= i < db.creators@.len() && (#[trigger] db.creators@[i]).language_code@ == code {
        let i = choose|i: int|
            0 <= i < db.creators@.len() && (#[trigger] db.creators@[i]).language_code@ == code;
        assert(db@.creators[i] == db.creators@[i]@);
        assert(found[i] == Some(code));
    }
}

/// The countries of the creators are listed in upper case, in ascending order and
/// each once, but for those that are blank.
pub proof fn law_countries_of_creators(db: Database, code: Seq<char>)
    ensures
        ({
            let all = order::sorted_set(
                lists::present(db@.creators.map_values(creator_lists::known_country())),
            );
            &&& order::ascending(all)
            &&& all.contains(code) <==> exists|i: int|
                0 <= i < db.creators@.len() && list_laws::filled(
                    (#[trigger] db.creators@[i]).country_code,
                ) && text::upper(db.creators@[i].country_code->0@) == code
        }),
{
    let found = db@.creators.map_values(creator_lists::known_country());
    job_list_laws::lemma_set_of(found, code);
    if found.contains(Some(code)) {
        let i = choose|i: int| 0 <= i < found.len() && found[i] == Some(code);
        assert(db@.creators[i] == db.creators@[i]@);
        assert(list_laws::filled(db.creators@[i].country_code));
    }
    if exists|i: int|
        0 <= i < db.creators@.len() && list_laws::filled(
            (#[trigger] db.creators@[i]).country_code,
        ) && text::upper(db.creators@[i].country_code->0@) == code {
        let i = choose|i: int|
            0 <= i < db.creators@.len() && list_laws::filled(
                (#[trigger] db.creators@[i]).country_code,
            ) && text::upper(db.creators@[i].country_code->0@) == code;
        assert(db@.creators[i] == db.creators@[i]@);
        assert(found[i] == Some(code));
    }
}

// ---------------------------------------------------------------------------
// Apps
// ---------------------------------------------------------------------------
/// All apps are listed, by their names in lower case.
pub proof fn law_apps_are_listed_by_name(apps: Seq<AppView>, a: AppView, i: int, j: int)
    ensures
        creator_lists::apps_by_name(apps).len() == apps.len(),
        creator_lists::apps_by_name(apps).contains(a) <==> apps.contains(a),
        0 <= i < j < apps.len() ==> !order::before(
            text::lower(creator_lists::apps_by_name(apps)[j].name),
            text::lower(creator_lists::apps_by_name(apps)[i].name),
        ),
        0 <= i < apps.len() ==> creator_lists::apps_by_name(apps).map_values(
            creator_lists::name_shown(),
        )[i] == creator_lists::apps_by_name(apps)[i].name,
{
    let key = creator_lists::app_order();
    lemma_all_listed(apps, key, seq![false], a);
    let all = creator_lists::apps_by_name(apps);
    if 0 <= i < j < apps.len() {
        list_laws::lemma_chosen_in_order(apps, table::always(), key, seq![false], i, j);
        reveal_with_fuel(ranking::key_before, 2);
        assert(key(all[i])[0] == SortView::Text(text::lower(all[i].name)));
        assert(key(all[j])[0] == SortView::Text(text::lower(all[j].name)));
        order::lemma_before_irreflexive(text::lower(all[i].name));
    }
}

/// A list of every row shows each of them.
pub proof fn lemma_all_listed<V>(
    rows: Seq<V>,
    key: spec_fn(V) -> Seq<SortView>,
    down: Seq<bool>,
    v: V,
)
    ensures
        table::chosen(rows, table::always(), key, down).len() == rows.len(),
        table::chosen(rows, table::always(), key, down).contains(v) <==> rows.contains(v),
{
    let p = table::always::<V>();
    let all = table::chosen(rows, p, key, down);
    let hits = rows.filter(p);
    lemma_keeps_all(rows);
    queue::lemma_chosen_members(rows, p, key, down);
    let keys = hits.map_values(key);
    ranking::lemma_ranking(keys, down);
    ranking::lemma_ranking_len(keys, down);
    let places = ranking::ranking(keys, down);
    if all.contains(v) {
        let i = choose|i: int| 0 <= i < all.len() && all[i] == v;
        assert(rows.contains(all[i]));
    }
    if rows.contains(v) {
        let m = choose|m: int| 0 <= m < hits.len() && hits[m] == v;
        assert(places.contains(m));
        let at = choose|at: int| 0 <= at < places.len() && places[at] == m;
        assert(all[at] == v);
    }
}

proof fn lemma_keeps_all<V>(rows: Seq<V>)
    ensures
        rows.filter(table::always()) == rows,
    decreases rows.len(),
{
    reveal(Seq::filter);
    if rows.len() > 0 {
        lemma_keeps_all(rows.drop_last());
        assert(rows.filter(table::always()) =~= rows);
    } else {
        assert(rows.filter(table::always()) =~= rows);
    }
}

/// What is shown of an app are its name, its policy, and how many creators promote
/// it under exactly that name.
pub proof fn law_apps_are_shown(db: Database, item: AppSummary, a: AppView)
    requires
        item@ == creator_lists::app_shown(db@.creators)(a),
    ensures
        item.name@ == a.name,
        item.policy == a.policy,
        item.creator_count == db@.creators.filter(
            |c: CreatorView| c.promoted_app_name == Some(a.name),
        ).len() as usize,
{
    assert(creator_lists::promotes(a.name) =~= (|c: CreatorView|
        c.promoted_app_name == Some(a.name)));
}

// ---------------------------------------------------------------------------
// Accounts and reviews
// ---------------------------------------------------------------------------
/// The accounts that are listed for a creator are those that are noted for it, by
/// their handles in lower case.
pub proof fn law_accounts_of_a_creator(
    follows: Seq<FollowView>,
    handle: Seq<char>,
    h: Seq<char>,
    i: int,
    j: int,
)
    ensures
        creator_lists::accounts_of(follows, handle).contains(h) <==> follows.contains(
            FollowView { creator_handle: handle, follows_handle: h },
        ),
        0 <= i < j < creator_lists::accounts_of(follows, handle).len() ==> !order::before(
            text::lower(creator_lists::accounts_of(follows, handle)[j]),
            text::lower(creator_lists::accounts_of(follows, handle)[i]),
        ),
{
    let p = record::follow_of(handle);
    let key = creator_lists::account_order();
    let down = seq![false];
    let all = table::chosen(follows, p, key, down);
    let hits = follows.filter(p);
    let shown = creator_lists::accounts_of(follows, handle);
    let want = FollowView { creator_handle: handle, follows_handle: h };
    queue::lemma_chosen_members(follows, p, key, down);
    if shown.contains(h) {
        let k = choose|k: int| 0 <= k < shown.len() && shown[k] == h;
        assert(follows.contains(all[k]) && p(all[k]));
        assert(all[k] == want);
    }
    if follows.contains(want) {
        let k = choose|k: int| 0 <= k < follows.len() && follows[k] == want;
        follows.lemma_filter_contains(p, k);
        let m = choose|m: int| 0 <= m < hits.len() && hits[m] == want;
        let keys = hits.map_values(key);
        ranking::lemma_ranking(keys, down);
        let places = ranking::ranking(keys, down);
        assert(places.contains(m));
        let at = choose|at: int| 0 <= at < places.len() && places[at] == m;
        assert(all[at] == want);
        assert(shown[at] == h);
    }
    if 0 <= i < j < shown.len() {
        list_laws::lemma_chosen_in_order(follows, p, key, down, i, j);
        reveal_with_fuel(ranking::key_before, 2);
        assert(key(all[i])[0] == SortView::Text(text::lower(all[i].follows_handle)));
        assert(key(all[j])[0] == SortView::Text(text::lower(all[j].follows_handle)));
        order::lemma_before_irreflexive(text::lower(all[i].follows_handle));
    }
}

/// A review of languages reads every creator, or the first of them where a number
/// is given, in the order of the handles in lower case.
pub proof fn law_creators_to_review(
    creators: Seq<CreatorView>,
    limit: Option<usize>,
    c: CreatorView,
    i: int,
    j: int,
)
    ensures
        ({
            let all = creator_lists::reviewed(creators, limit);
            &&& limit is None ==> all.len() == creators.len() && (all.contains(c)
                <==> creators.contains(c))
            &&& limit is Some && limit->0 >= creators.len() ==> all.len() == creators.len()
            &&& limit is Some && limit->0 < creators.len() ==> all.len() == limit->0
            &&& 0 <= i < all.len() ==> creators.contains(all[i])
            &&& 0 <= i < j < all.len() ==> !order::before(
                text::lower(all[j].handle),
                text::lower(all[i].handle),
            )
        }),
{
    let key = creator_lists::handle_order();
    let whole = table::chosen(creators, table::always(), key, seq![false]);
    let all = creator_lists::reviewed(creators, limit);
    lemma_all_listed(creators, key, seq![false], c);
    queue::lemma_chosen_members(creators, table::always(), key, seq![false]);
    if 0 <= i < all.len() {
        assert(all[i] == whole[i]);
        assert(creators.contains(whole[i]));
    }
    if 0 <= i < j < all.len() {
        assert(all[j] == whole[j]);
        list_laws::lemma_chosen_in_order(creators, table::always(), key, seq![false], i, j);
        reveal_with_fuel(ranking::key_before, 2);
        assert(key(whole[i])[0] == SortView::Text(text::lower(whole[i].handle)));
        assert(key(whole[j])[0] == SortView::Text(text::lower(whole[j].handle)));
        order::lemma_before_irreflexive(text::lower(whole[i].handle));
    }
}

/// What a review reads of a creator are the handle, the bio, the text of the latest
/// posts and the language.
pub proof fn law_creators_are_shown_for_review(item: LanguageReviewCreator, c: CreatorView)
    requires
        item@ == creator_lists::review_shown()(c),
    ensures
        item.handle@ == c.handle,
        item.bio@ == c.bio,
        item.latest_content_text@ == c.latest_content_text,
        item.language_code@ == c.language_code,
{
}

// ---------------------------------------------------------------------------
// Seeds, runs and items
// ---------------------------------------------------------------------------
/// What is shown of a seed are its columns, and the app, the language and the
/// counts of the creator that goes by its handle, with the number of accounts that
/// are noted for it.
pub proof fn law_seeds_are_shown(
    db: Database,
    item: FrontierBucketItem,
    b: BucketView,
    c: Option<CreatorView>,
)
    requires
        db@.wf(),
        item@ == frontier_lists::seed_shown(db@.creators, db@.follows)(b),
        claim_laws::goes_by(db@.creators, Some(b.handle), c),
    ensures
        item.handle@ == b.handle,
        item.added_at@ == b.added_at,
        models::opt_text(item.source) == b.source,
        c is Some ==> models::opt_text(item.promoted_app_name) == c->0.promoted_app_name
            && models::opt_text(item.language_code) == Some(c->0.language_code)
            && item.follower_count == c->0.follower_count && item.following_count
            == c->0.following_count,
        c is None ==> item.promoted_app_name is None && item.language_code is None
            && item.follower_count is None && item.following_count is None,
        item.follows_count == db@.follows.filter(
            |f: FollowView| f.creator_handle == b.handle,
        ).len() as usize,
{
    claim_laws::lemma_creator_named(db@.creators, Some(b.handle), c);
    assert(record::follow_of(b.handle) =~= (|f: FollowView| f.creator_handle == b.handle));
    assert(item@.promoted_app_name == models::opt_text(item.promoted_app_name));
    assert(item@.language_code == models::opt_text(item.language_code));
}

/// Seeds stand in the order in which they were put in.
pub proof fn law_seeds_are_in_order(bucket: Seq<BucketView>, b: BucketView, i: int, j: int)
    ensures
        ({
            let all = table::chosen(
                bucket,
                table::always(),
                frontier_lists::seed_order(),
                seq![false, false],
            );
            &&& all.len() == bucket.len()
            &&& all.contains(b) <==> bucket.contains(b)
            &&& 0 <= i < j < all.len() ==> !order::before(all[j].added_at, all[i].added_at)
        }),
{
    let key = frontier_lists::seed_order();
    let down = seq![false, false];
    let all = table::chosen(bucket, table::always(), key, down);
    lemma_all_listed(bucket, key, down, b);
    if 0 <= i < j < all.len() {
        list_laws::lemma_chosen_in_order(bucket, table::always(), key, down, i, j);
        reveal_with_fuel(ranking::key_before, 3);
        assert(key(all[i])[0] == SortView::Text(all[i].added_at));
        assert(key(all[j])[0] == SortView::Text(all[j].added_at));
        order::lemma_before_irreflexive(all[i].added_at);
    }
}

/// What is shown of an item of a run are its columns, and what is known of the
/// creator that goes by its handle, as for seeds.
pub proof fn law_items_are_shown(
    db: Database,
    item: FrontierRunItemView,
    v: ItemView,
    c: Option<CreatorView>,
)
    requires
        db@.wf(),
        item@ == frontier_lists::item_shown(db@.creators, db@.follows)(v),
        claim_laws::goes_by(db@.creators, Some(v.handle), c),
    ensures
        item.run_id == v.run_id,
        item.handle@ == v.handle,
        item.depth == v.depth,
        models::opt_text(item.discovered_from) == v.discovered_from,
        item.found_at@ == v.found_at,
        item.status == v.status,
        item.attempts == v.attempts,
        models::opt_text(item.last_error) == v.last_error,
        models::opt_text(item.scraped_at) == v.scraped_at,
        c is Some ==> models::opt_text(item.promoted_app_name) == c->0.promoted_app_name
            && models::opt_text(item.language_code) == Some(c->0.language_code)
            && item.follower_count == c->0.follower_count && item.following_count
            == c->0.following_count,
        c is None ==> item.promoted_app_name is None && item.language_code is None
            && item.follower_count is None && item.following_count is None,
        item.follows_count == db@.follows.filter(
            |f: FollowView| f.creator_handle == v.handle,
        ).len() as usize,
{
    claim_laws::lemma_creator_named(db@.creators, Some(v.handle), c);
    assert(record::follow_of(v.handle) =~= (|f: FollowView| f.creator_handle == v.handle));
    assert(item@.promoted_app_name == models::opt_text(item.promoted_app_name));
    assert(item@.language_code == models::opt_text(item.language_code));
    assert(item@.last_error == models::opt_text(item.last_error));
    assert(item@.scraped_at == models::opt_text(item.scraped_at));
}

/// The items of a run are those with its number, the least deep first and those
/// that were found earlier before others that are as deep; as many are counted.
pub proof fn law_items_of_a_run(items: Seq<ItemView>, run_id: i64, v: ItemView, i: int, j: int)
    ensures
        ({
            let all = frontier_lists::items_of_run(items, run_id);
            &&& all.contains(v) <==> items.contains(v) && v.run_id == run_id
            &&& all.len() == items.filter(|v: ItemView| v.run_id == run_id).len()
            &&& lists::count(items, frontier_lists::item_in(run_id)) == all.len()
            &&& frontier_lists::states_in(items, run_id).len() == all.len()
            &&& 0 <= i < j < all.len() ==> all[i].depth <= all[j].depth && (all[i].depth
                == all[j].depth ==> !order::before(all[j].found_at, all[i].found_at))
        }),
{
    let p = frontier_lists::item_in(run_id);
    let key = frontier::item_order();
    let down = frontier::item_directions();
    let all = frontier_lists::items_of_run(items, run_id);
    let hits = items.filter(p);
    assert(p =~= (|v: ItemView| v.run_id == run_id));
    queue::lemma_chosen_members(items, p, key, down);
    if all.contains(v) {
        let k = choose|k: int| 0 <= k < all.len() && all[k] == v;
        assert(items.contains(all[k]) && p(all[k]));
    }
    if items.contains(v) && v.run_id == run_id {
        let k = choose|k: int| 0 <= k < items.len() && items[k] == v;
        items.lemma_filter_contains(p, k);
        let m = choose|m: int| 0 <= m < hits.len() && hits[m] == v;
        let keys = hits.map_values(key);
        ranking::lemma_ranking(keys, down);
        let places = ranking::ranking(keys, down);
        assert(places.contains(m));
        let at = choose|at: int| 0 <= at < places.len() && places[at] == m;
        assert(all[at] == v);
    }
    if 0 <= i < j < all.len() {
        list_laws::lemma_chosen_in_order(items, p, key, down, i, j);
        reveal_with_fuel(ranking::key_before, 4);
        assert(key(all[i])[0] == SortView::Number(all[i].depth as int));
        assert(key(all[j])[0] == SortView::Number(all[j].depth as int));
        assert(key(all[i])[1] == SortView::Text(all[i].found_at));
        assert(key(all[j])[1] == SortView::Text(all[j].found_at));
        order::lemma_before_irreflexive(all[i].found_at);
    }
}

/// What is shown of a run are its columns, each as it is.
pub proof fn law_runs_are_shown(item: FrontierRunRecord, run: RunRow)
    requires
        item@ == frontier::run_shown(run@),
    ensures
        item.id == run.id,
        item.status == run.status,
        item.created_at@ == run.created_at@,
        models::opt_text(item.started_at) == models::opt_text(run.started_at),
        models::opt_text(item.finished_at) == models::opt_text(run.finished_at),
        item.seed_count == run.seed_count,
        item.depth_limit == run.depth_limit,
        item.processed == run.processed,
        item.succeeded == run.succeeded,
        item.failed == run.failed,
        item.skipped == run.skipped,
        models::opt_text(item.last_error) == models::opt_text(run.last_error),
{
    assert(item@.started_at == models::opt_text(item.started_at));
    assert(item@.finished_at == models::opt_text(item.finished_at));
    assert(item@.last_error == models::opt_text(item.last_error));
}

} // verus!
