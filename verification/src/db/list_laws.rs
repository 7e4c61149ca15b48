//! Which creators a list shows, in which order, and what it shows of them.

use vstd::prelude::*;
use crate::db::creator_lists;
use crate::db::creator_lists::CreatorListFilters;
use crate::db::filter_laws;
use crate::db::filters;
use crate::db::items::CreatorListItem;
use crate::db::listing;
use crate::db::queue;
use crate::db::record;
use crate::db::rows;
use crate::db::rows::{ContactStatus, CreatorRow, CreatorView, Database, FollowView, VideoView};
use crate::db::table;
use crate::floating::Real;
use crate::lists;
use crate::models;
use crate::order;
use crate::ranking;
use crate::ranking::SortView;
use crate::search;
use crate::text;
use crate::text::CharClass;

verus! {

// ---------------------------------------------------------------------------
// Which creators
// ---------------------------------------------------------------------------
/// Something other than spaces stands in the column.
pub open spec fn filled(column: Option<String>) -> bool {
    match column {
        Some(t) => text::trim_both(t@, CharClass::Only(' ')).len() > 0,
        None => false,
    }
}

/// The text in the column is one of those that are given, if any are.
pub open spec fn column_fits(given: Seq<String>, column: Option<String>) -> bool {
    filter_laws::nothing_asked(given) || match column {
        Some(t) => filter_laws::asked(given, t@),
        None => false,
    }
}

/// The number in the column is within the bounds that are given; where a bound is
/// given, there has to be a number.
pub open spec fn count_fits(min: Option<i64>, max: Option<i64>, column: Option<i64>) -> bool {
    &&& min is Some ==> column is Some && column->0 >= min->0
    &&& max is Some ==> column is Some && column->0 <= max->0
}

/// The number in the column is within the bounds that are given, as far as those
/// are numbers.
pub open spec fn views_fit(min: Option<Real>, max: Option<Real>, column: Real) -> bool {
    &&& min is Some && !min->0.is_nan() ==> min->0.le(column)
    &&& max is Some && !max->0.is_nan() ==> column.le(max->0)
}

/// The word for the state of a contact.
pub open spec fn contact_word(status: ContactStatus) -> Seq<char> {
    match status {
        ContactStatus::Unselected => "unselected"@,
        ContactStatus::ToContact => "to_contact"@,
        ContactStatus::Contacted => "contacted"@,
    }
}

/// A creator fits the filters as they are given: each filter reads its own column.
pub open spec fn creator_fits(f: CreatorListFilters, c: CreatorRow) -> bool {
    &&& f.app_mode is Some ==> {
        let word = text::lower(text::trim(f.app_mode->0@));
        &&& word == "__with_app__"@ || word == "with_app"@ || word == "all_apps"@ ==> filled(
            c.promoted_app_name,
        )
        &&& word == "__no_app__"@ || word == "no_app"@ || word == "none"@ ==> !filled(
            c.promoted_app_name,
        )
    }
    &&& f.email_filter is Some ==> {
        let word = text::lower(text::trim(f.email_filter->0@));
        &&& word == "has"@ || word == "yes"@ || word == "true"@ || word == "with"@ ==> filled(
            c.email,
        )
        &&& word == "none"@ || word == "no"@ || word == "false"@ || word == "without"@ ==> !filled(
            c.email,
        )
    }
    &&& column_fits(f.app_names@, c.promoted_app_name)
    &&& filter_laws::nothing_asked(f.language_codes@) || filter_laws::asked(
        f.language_codes@,
        c.language_code@,
    )
    &&& column_fits(f.country_codes@, c.country_code)
    &&& filter_laws::nothing_asked(f.contact_statuses@) || filter_laws::asked(
        f.contact_statuses@,
        contact_word(c.contact_status),
    )
    &&& count_fits(f.min_followers, f.max_followers, c.follower_count)
    &&& count_fits(f.min_following, f.max_following, c.following_count)
    &&& views_fit(f.min_median_views, f.max_median_views, c.median_views)
    &&& views_fit(f.min_avg_views, f.max_avg_views, c.avg_views)
}

proof fn lemma_one_of(given: Seq<String>, column: Option<String>)
    ensures
        creator_lists::is_one_of(
            filters::filter_values(search::texts(given)),
            models::opt_text(column),
        ) <==> column_fits(given, column),
        creator_lists::is_one_of(
            filters::upper_values(search::texts(given)),
            models::opt_text(column),
        ) <==> column_fits(given, column),
{
    let t = match column {
        Some(t) => t@,
        None => Seq::empty(),
    };
    filter_laws::law_values_ask_for_what_is_given(given, t);
}

/// A creator is one of those that are asked for exactly if it fits the filters.
pub proof fn lemma_creator_fits(f: CreatorListFilters, c: CreatorRow)
    ensures
        creator_lists::listed_by(f@)(c@) <==> creator_fits(f, c),
{
    filter_laws::law_app_mode_words(models::opt_text(f.app_mode)->0);
    filter_laws::law_email_filter_words(models::opt_text(f.email_filter)->0);
    lemma_one_of(f.app_names@, c.promoted_app_name);
    lemma_one_of(f.country_codes@, c.country_code);
    filter_laws::law_values_ask_for_what_is_given(f.language_codes@, c.language_code@);
    filter_laws::law_values_ask_for_what_is_given(
        f.contact_statuses@,
        contact_word(c.contact_status),
    );
    assert(c@.contact_status.text() == contact_word(c.contact_status));
}

/// The creators that are counted are those that fit the filters.
pub proof fn law_count_is_of_creators_that_fit(db: Database, f: CreatorListFilters)
    ensures
        lists::count(db@.creators, creator_lists::listed_by(f@)) == db.creators@.filter(
            |c: CreatorRow| creator_fits(f, c),
        ).len(),
{
    lemma_count_views(db.creators@, f);
}

proof fn lemma_count_views(rows: Seq<CreatorRow>, f: CreatorListFilters)
    ensures
        lists::count(table::views(rows), creator_lists::listed_by(f@)) == rows.filter(
            |c: CreatorRow| creator_fits(f, c),
        ).len(),
    decreases rows.len(),
{
    let p = creator_lists::listed_by(f@);
    let q = |c: CreatorRow| creator_fits(f, c);
    reveal(Seq::filter);
    if rows.len() > 0 {
        let rest = rows.drop_last();
        lemma_count_views(rest, f);
        lemma_creator_fits(f, rows.last());
        assert(table::views(rows).drop_last() =~= table::views(rest));
        assert(table::views(rows).last() == rows.last()@);
    } else {
        assert(table::views(rows) =~= Seq::<CreatorView>::empty());
    }
}

/// Where only languages are asked for, a creator is counted exactly if its
/// language is, but for case, one of the given languages without white space
/// around them.
pub proof fn law_languages_alone(f: CreatorListFilters, c: CreatorRow)
    requires
        f.app_mode is None,
        f.app_names@.len() == 0,
        f.country_codes@.len() == 0,
        f.contact_statuses@.len() == 0,
        f.email_filter is None,
        f.min_followers is None,
        f.max_followers is None,
        f.min_following is None,
        f.max_following is None,
        f.min_median_views is None,
        f.max_median_views is None,
        f.min_avg_views is None,
        f.max_avg_views is None,
        exists|i: int|
            0 <= i < f.language_codes@.len() && text::trim(
                (#[trigger] f.language_codes@[i])@,
            ).len() > 0,
    ensures
        creator_lists::listed_by(f@)(c@) <==> exists|i: int|
            0 <= i < f.language_codes@.len() && text::trim(
                (#[trigger] f.language_codes@[i])@,
            ).len() > 0 && text::lower(text::trim(f.language_codes@[i]@)) == text::lower(
                c.language_code@,
            ),
{
    lemma_creator_fits(f, c);
}

/// Creators that differ only in columns that nothing is asked about are both
/// listed or both left out.
pub proof fn law_filters_read_their_own_columns(
    f: CreatorListFilters,
    a: CreatorRow,
    b: CreatorRow,
)
    requires
        f.app_mode is None && filter_laws::nothing_asked(f.app_names@) || a.promoted_app_name
            == b.promoted_app_name,
        filter_laws::nothing_asked(f.language_codes@) || a.language_code == b.language_code,
        filter_laws::nothing_asked(f.country_codes@) || a.country_code == b.country_code,
        filter_laws::nothing_asked(f.contact_statuses@) || a.contact_status == b.contact_status,
        f.email_filter is None || a.email == b.email,
        f.min_followers is None && f.max_followers is None || a.follower_count == b.follower_count,
        f.min_following is None && f.max_following is None || a.following_count
            == b.following_count,
        f.min_median_views is None && f.max_median_views is None || a.median_views
            == b.median_views,
        f.min_avg_views is None && f.max_avg_views is None || a.avg_views == b.avg_views,
    ensures
        creator_lists::listed_by(f@)(a@) == creator_lists::listed_by(f@)(b@),
{
    lemma_creator_fits(f, a);
    lemma_creator_fits(f, b);
}

// ---------------------------------------------------------------------------
// What is shown of them
// ---------------------------------------------------------------------------
/// The rows of a page stand in the list behind those that are left out.
pub proof fn lemma_page<V>(rows: Seq<V>, limit: nat, offset: nat, i: int)
    requires
        0 <= i < table::page(rows, limit, offset).len(),
    ensures
        0 <= offset + i < rows.len(),
        table::page(rows, limit, offset)[i] == rows[offset + i],
        table::page(rows, limit, offset).len() <= limit,
{
}

/// A list of creators is at most as long as is asked for, within one and five
/// hundred. What it shows of a creator are the values of one row, each from its
/// own column, with the number of its posts and of the accounts that it follows;
/// the creator fits the filters.
pub proof fn law_listed_creators_fit(
    db: Database,
    sort_by: Seq<char>,
    sort_dir: Seq<char>,
    f: CreatorListFilters,
    r: Seq<CreatorListItem>,
    i: int,
) -> (k: int)
    requires
        table::views(r) == creator_lists::listed_page(
            db@,
            sort_by,
            sort_dir,
            f@,
            f.limit,
            f.offset,
        ),
        0 <= i < r.len(),
    ensures
        r.len() <= 500,
        f.limit >= 1 ==> r.len() <= f.limit,
        f.limit == 0 ==> r.len() <= 1,
        0 <= k < db.creators@.len(),
        creator_fits(f, db.creators@[k]),
        ({
            let row = db.creators@[k];
            let item = r[i];
            &&& item.handle@ == row.handle@
            &&& models::opt_text(item.display_name) == models::opt_text(row.display_name)
            &&& models::opt_text(item.contact_name) == models::opt_text(row.contact_name)
            &&& models::opt_text(item.promoted_app_name) == models::opt_text(row.promoted_app_name)
            &&& models::opt_text(item.email) == models::opt_text(row.email)
            &&& models::opt_text(item.country_code) == models::opt_text(row.country_code)
            &&& item.follower_count == row.follower_count
            &&& item.following_count == row.following_count
            &&& item.avg_views == row.avg_views
            &&& item.median_views == row.median_views
            &&& models::opt_text(item.most_viral_video_url) == models::opt_text(
                row.most_viral_video_url,
            )
            &&& item.most_viral_video_views == row.most_viral_video_views
            &&& item.language_code@ == row.language_code@
            &&& item.scraped_at@ == row.scraped_at@
            &&& item.contact_status == row.contact_status
            &&& models::opt_text(item.contact_priority_at) == models::opt_text(
                row.contact_priority_at,
            )
            &&& models::opt_text(item.contacted_at) == models::opt_text(row.contacted_at)
            &&& item.videos_count == db@.videos.filter(
                |v: VideoView| v.creator_handle == row.handle@,
            ).len() as usize
            &&& item.follows_count == db@.follows.filter(
                |v: FollowView| v.creator_handle == row.handle@,
            ).len() as usize
        }),
{
    let all = creator_lists::listed_creators(db@, sort_by, sort_dir, f@);
    let length = creator_lists::list_length(f.limit);
    let skip = listing::skipped(f.offset);
    let page = table::page(all, length, skip);
    assert(r.len() == table::views(r).len());
    assert(table::views(r)[i] == r[i]@);
    lemma_page(all, length, skip, i);
    queue::lemma_chosen_members(
        db@.creators,
        creator_lists::listed_by(f@),
        creator_lists::creator_order(creator_lists::column_of(sort_by)),
        seq![creator_lists::is_descending(sort_dir), false],
    );
    let c = all[skip + i];
    assert(db@.creators.contains(c));
    let k = choose|k: int| 0 <= k < db@.creators.len() && db@.creators[k] == c;
    let row = db.creators@[k];
    assert(db@.creators[k] == row@);
    lemma_creator_fits(f, row);
    assert(record::video_of(row.handle@) =~= (|v: VideoView| v.creator_handle == row.handle@));
    assert(record::follow_of(row.handle@) =~= (|v: FollowView| v.creator_handle == row.handle@));
    assert(r[i]@ == creator_lists::creator_shown(db@.videos, db@.follows)(c));
    k
}

/// A list that starts with the first creator and is shorter than asked for shows
/// every creator that fits the filters.
pub proof fn law_creators_that_fit_are_listed(
    db: Database,
    sort_by: Seq<char>,
    sort_dir: Seq<char>,
    f: CreatorListFilters,
    r: Seq<CreatorListItem>,
    k: int,
) -> (i: int)
    requires
        table::views(r) == creator_lists::listed_page(
            db@,
            sort_by,
            sort_dir,
            f@,
            f.limit,
            f.offset,
        ),
        db@.wf(),
        f.offset == 0,
        r.len() < f.limit,
        r.len() < 500,
        0 <= k < db.creators@.len(),
        creator_fits(f, db.creators@[k]),
    ensures
        0 <= i < r.len(),
        r[i].handle@ == db.creators@[k].handle@,
{
    let all = creator_lists::listed_creators(db@, sort_by, sort_dir, f@);
    let length = creator_lists::list_length(f.limit);
    let page = table::page(all, length, 0);
    let shown = creator_lists::creator_shown(db@.videos, db@.follows);
    assert(listing::skipped(f.offset) == 0);
    assert(table::views(r) == page.map_values(shown));
    assert(r.len() == page.len());
    table::lemma_chosen(
        db@.creators,
        creator_lists::listed_by(f@),
        creator_lists::creator_order(creator_lists::column_of(sort_by)),
        seq![creator_lists::is_descending(sort_dir), false],
        rows::creator_key(),
    );
    let c = db.creators@[k]@;
    assert(db@.creators[k] == c);
    lemma_creator_fits(f, db.creators@[k]);
    assert(db@.creators.contains(c));
    assert(all.contains(c));
    let i = choose|i: int| 0 <= i < all.len() && all[i] == c;
    assert(page =~= all);
    assert(table::views(r)[i] == r[i]@);
    i
}

// ---------------------------------------------------------------------------
// In which order
// ---------------------------------------------------------------------------
/// Of rows that are chosen, none goes before one that stands earlier.
pub proof fn lemma_chosen_in_order<V>(
    rows: Seq<V>,
    wanted: spec_fn(V) -> bool,
    key: spec_fn(V) -> Seq<SortView>,
    descending: Seq<bool>,
    i: int,
    j: int,
)
    requires
        0 <= i < j < table::chosen(rows, wanted, key, descending).len(),
    ensures
        ({
            let all = table::chosen(rows, wanted, key, descending);
            !ranking::key_before(key(all[j]), key(all[i]), descending, 0)
        }),
{
    let hits = rows.filter(wanted);
    let keys = hits.map_values(key);
    ranking::lemma_ranking(keys, descending);
    ranking::lemma_ranking_len(keys, descending);
    let places = ranking::ranking(keys, descending);
    assert(places.contains(places[i]));
    assert(places.contains(places[j]));
    assert(ranking::row_order(keys, descending)(places[i], places[j]));
    ranking::lemma_comes_first(keys, descending, places[i], places[j], places[i]);
    assert(keys[places[i]] == key(hits[places[i]]));
    assert(keys[places[j]] == key(hits[places[j]]));
    if ranking::key_before(keys[places[j]], keys[places[i]], descending, 0) {
        assert(ranking::comes_first(keys, descending, places[j], places[i]));
    }
}

/// The first number is the one that a list shows earlier: the greater one where
/// the greater come first, and none as the least.
pub open spec fn count_goes_first(a: Option<i64>, b: Option<i64>, greater_first: bool) -> bool {
    let less = match (a, b) {
        (None, Some(_)) => true,
        (Some(x), Some(y)) => x < y,
        _ => false,
    };
    let more = match (a, b) {
        (Some(_), None) => true,
        (Some(x), Some(y)) => x > y,
        _ => false,
    };
    if greater_first {
        more || a == b
    } else {
        less || a == b
    }
}

/// The first text is the one that a list shows earlier: the later one where the
/// greater come first, and none as the least.
pub open spec fn text_goes_first(
    a: Option<Seq<char>>,
    b: Option<Seq<char>>,
    greater_first: bool,
) -> bool {
    let less = match (a, b) {
        (None, Some(_)) => true,
        (Some(x), Some(y)) => order::before(x, y),
        _ => false,
    };
    let more = match (a, b) {
        (Some(_), None) => true,
        (Some(x), Some(y)) => order::before(y, x),
        _ => false,
    };
    if greater_first {
        more || a == b
    } else {
        less || a == b
    }
}

/// A list stands in the order of the column that is asked for: the average of the
/// views, the followers, the followed accounts, the time of the crawl, the time at
/// which a contact was asked for, and otherwise the median of the views. The
/// greater come first, unless `asc` is asked for in any case. Creators that are
/// equal in that stand in the order of their handles.
pub proof fn law_list_is_in_order(
    db: Database,
    sort_by: Seq<char>,
    sort_dir: Seq<char>,
    f: CreatorListFilters,
    r: Seq<CreatorListItem>,
    i: int,
    j: int,
)
    requires
        table::views(r) == creator_lists::listed_page(
            db@,
            sort_by,
            sort_dir,
            f@,
            f.limit,
            f.offset,
        ),
        0 <= i < j < r.len(),
    ensures
        ({
            let a = r[i];
            let b = r[j];
            let down = text::lower(sort_dir) != text::lower("asc"@);
            let followers = sort_by == "followers"@ || sort_by == "follower_count"@;
            let following = sort_by == "following"@ || sort_by == "following_count"@;
            let by_median = sort_by != "avg_views"@ && !followers && !following && sort_by
                != "scraped_at"@ && sort_by != "contact_priority"@;
            &&& sort_by == "avg_views"@ ==> if down {
                a.avg_views.key() >= b.avg_views.key()
            } else {
                a.avg_views.key() <= b.avg_views.key()
            }
            &&& by_median ==> if down {
                a.median_views.key() >= b.median_views.key()
            } else {
                a.median_views.key() <= b.median_views.key()
            }
            &&& followers ==> count_goes_first(a.follower_count, b.follower_count, down)
            &&& following ==> count_goes_first(a.following_count, b.following_count, down)
            &&& sort_by == "scraped_at"@ ==> text_goes_first(
                Some(a.scraped_at@),
                Some(b.scraped_at@),
                down,
            )
            &&& sort_by == "contact_priority"@ ==> text_goes_first(
                models::opt_text(a.contact_priority_at),
                models::opt_text(b.contact_priority_at),
                down,
            )
            &&& by_median && a.median_views.key() == b.median_views.key() ==> !order::before(
                text::lower(b.handle@),
                text::lower(a.handle@),
            )
            &&& sort_by == "avg_views"@ && a.avg_views.key() == b.avg_views.key()
                ==> !order::before(text::lower(b.handle@), text::lower(a.handle@))
            &&& followers && a.follower_count == b.follower_count ==> !order::before(
                text::lower(b.handle@),
                text::lower(a.handle@),
            )
        }),
{
    let column = creator_lists::column_of(sort_by);
    let all = creator_lists::listed_creators(db@, sort_by, sort_dir, f@);
    let length = creator_lists::list_length(f.limit);
    let skip = listing::skipped(f.offset);
    let page = table::page(all, length, skip);
    let key = creator_lists::creator_order(column);
    let dirs = seq![creator_lists::is_descending(sort_dir), false];
    assert(r.len() == table::views(r).len());
    assert(table::views(r)[i] == r[i]@);
    assert(table::views(r)[j] == r[j]@);
    lemma_page(all, length, skip, i);
    lemma_page(all, length, skip, j);
    let a = all[skip + i];
    let b = all[skip + j];
    lemma_chosen_in_order(
        db@.creators,
        creator_lists::listed_by(f@),
        key,
        dirs,
        skip + i,
        skip + j,
    );
    reveal_with_fuel(ranking::key_before, 3);
    assert(key(a)[0] == creator_lists::sorted_value(column, a));
    assert(key(b)[0] == creator_lists::sorted_value(column, b));
    assert(key(a)[1] == SortView::Text(text::lower(a.handle)));
    assert(key(b)[1] == SortView::Text(text::lower(b.handle)));
    lemma_columns(sort_by);
    order::lemma_before_total(a.scraped_at, b.scraped_at);
    if a.contact_priority_at is Some && b.contact_priority_at is Some {
        order::lemma_before_total(a.contact_priority_at->0, b.contact_priority_at->0);
    }
    order::lemma_before_irreflexive(text::lower(a.handle));
}

/// No two of the words for columns are the same.
proof fn lemma_columns(sort_by: Seq<char>)
    ensures
        "avg_views"@ != "followers"@,
        "avg_views"@ != "following"@,
        "followers"@ != "following"@,
        "avg_views"@ != "follower_count"@,
        "avg_views"@ != "following_count"@,
        "avg_views"@ != "scraped_at"@,
        "avg_views"@ != "contact_priority"@,
        "followers"@ != "following_count"@,
        "follower_count"@ != "following"@,
        "follower_count"@ != "following_count"@,
        "followers"@ != "scraped_at"@,
        "follower_count"@ != "scraped_at"@,
        "following"@ != "scraped_at"@,
        "following_count"@ != "scraped_at"@,
        "followers"@ != "contact_priority"@,
        "follower_count"@ != "contact_priority"@,
        "following"@ != "contact_priority"@,
        "following_count"@ != "contact_priority"@,
        "scraped_at"@ != "contact_priority"@,
{
    reveal_strlit("avg_views");
    reveal_strlit("followers");
    reveal_strlit("follower_count");
    reveal_strlit("following");
    reveal_strlit("following_count");
    reveal_strlit("scraped_at");
    reveal_strlit("contact_priority");
    assert("avg_views"@[0] != "followers"@[0]);
    assert("followers"@[6] != "following"@[6]);
    assert("avg_views"@.len() == 9);
    assert("followers"@.len() == 9);
    assert("following"@.len() == 9);
    assert("follower_count"@.len() == 14);
    assert("following_count"@.len() == 15);
    assert("scraped_at"@.len() == 10);
    assert("contact_priority"@.len() == 16);
    assert("avg_views"@[0] != "following"@[0]);
}

/// Creators are sorted by the column that a word names, and by their middle views
/// where it names none of them; they go up only where that is asked for.
pub proof fn law_words_for_sorting(word: Seq<char>)
    ensures
        ({
            let column = creator_lists::column_of(word);
            &&& column is AvgViews <==> word == "avg_views"@
            &&& column is Followers <==> word == "followers"@ || word == "follower_count"@
            &&& column is Following <==> word == "following"@ || word == "following_count"@
            &&& column is ScrapedAt <==> word == "scraped_at"@
            &&& column is ContactPriority <==> word == "contact_priority"@
            &&& column is MedianViews <==> !(word == "avg_views"@ || word == "followers"@ || word
                == "follower_count"@ || word == "following"@ || word == "following_count"@ || word
                == "scraped_at"@ || word == "contact_priority"@)
        }),
        !creator_lists::is_descending(word) <==> text::lower(word) == text::lower("asc"@),
{
    reveal_strlit("avg_views");
    reveal_strlit("followers");
    reveal_strlit("follower_count");
    reveal_strlit("following");
    reveal_strlit("following_count");
    reveal_strlit("scraped_at");
    reveal_strlit("contact_priority");
    assert("avg_views"@.len() == 9 && "followers"@.len() == 9 && "follower_count"@.len() == 14
        && "following"@.len() == 9 && "following_count"@.len() == 15 && "scraped_at"@.len() == 10
        && "contact_priority"@.len() == 16);
    assert("avg_views"@[0] == 'a' && "followers"@[6] == 'e' && "following"@[6] == 'i');
    assert("followers"@[0] == 'f' && "following"@[0] == 'f');
}

} // verus!
