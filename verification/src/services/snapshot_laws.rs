//! What a snapshot of a creator holds of the replies that describe the creator.

use vstd::prelude::*;
use crate::handles;
use crate::json;
use crate::json::{Json, JsonView};
use crate::lists;
use crate::models;
use crate::models::CreatorSnapshot;
use crate::order;
use crate::reading;
use crate::reading_laws;
use crate::search;
use crate::services::post_laws;
use crate::services::posts;
use crate::services::request_laws;
use crate::services::tiktok;

verus! {

// ---------------------------------------------------------------------------
// Followed accounts
// ---------------------------------------------------------------------------
/// The places at which an account gives its handle.
pub open spec fn handle_places() -> Seq<Seq<char>> {
    seq![
        "handle"@,
        "uniqueId"@,
        "unique_id"@,
        "username"@,
        "nickname"@,
        "user.uniqueId"@,
        "user.unique_id"@,
        "user.username"@,
    ]
}

/// The handle that the text at the place names.
pub open spec fn handle_at(doc: JsonView, place: Seq<char>) -> Option<Seq<char>> {
    match reading_laws::text_in(json::at_path(doc, place)) {
        Some(t) => handles::normalized_handle(t),
        None => None,
    }
}

/// The handle of an account is the one that a text names; of other documents it is
/// the one at the first of the places at which a handle is named.
pub proof fn law_handle_of_an_account(doc: JsonView)
    ensures
        match doc {
            JsonView::Text(t) => tiktok::account_handle(doc) == handles::normalized_handle(t),
            _ => reading_laws::is_first_found(
                tiktok::account_handle(doc),
                handle_places(),
                |p: Seq<char>| handle_at(doc, p),
            ),
        },
{
    assert(tiktok::account_keys() =~= handle_places());
    lemma_handle_among(doc, handle_places());
}

proof fn lemma_handle_among(doc: JsonView, places: Seq<Seq<char>>)
    ensures
        reading_laws::is_first_found(
            tiktok::handle_among(doc, places),
            places,
            |p: Seq<char>| handle_at(doc, p),
        ),
    decreases places.len(),
{
    let found = |p: Seq<char>| handle_at(doc, p);
    if places.len() > 0 {
        let rest = places.skip(1);
        lemma_handle_among(doc, rest);
        let one = seq![places[0]];
        assert(one[0] == places[0]);
        assert(one.skip(1) =~= Seq::<Seq<char>>::empty());
        reveal_with_fuel(reading::first_of, 2);
        assert(reading::string_at(doc, one) == reading_laws::text_in(
            json::at_path(doc, places[0]),
        ));
        if found(places[0]) is None {
            match tiktok::handle_among(doc, rest) {
                Some(v) => {
                    let i = choose|i: int|
                        0 <= i < rest.len() && found(#[trigger] rest[i]) == Some(v) && forall|k: int|
                            0 <= k < i ==> found(#[trigger] rest[k]) is None;
                    assert(places[i + 1] == rest[i]);
                    assert forall|k: int| 0 <= k < i + 1 implies found(
                        #[trigger] places[k],
                    ) is None by {
                        if k > 0 {
                            assert(places[k] == rest[k - 1]);
                        }
                    }
                },
                None => {
                    assert forall|k: int| 0 <= k < places.len() implies found(
                        #[trigger] places[k],
                    ) is None by {
                        if k > 0 {
                            assert(places[k] == rest[k - 1]);
                        }
                    }
                },
            }
        }
    }
}

/// The document stands where a reply lists accounts.
pub open spec fn is_account(doc: JsonView, j: JsonView) -> bool {
    ||| post_laws::holds(json::list_field(doc, "following"@), j)
    ||| post_laws::holds(json::list_field(doc, "followings"@), j)
    ||| post_laws::holds(json::list_field(doc, "followers"@), j)
    ||| post_laws::holds(json::list_field(doc, "userList"@), j)
    ||| post_laws::holds(posts::list_field2(doc, "creator"@, "following"@), j)
    ||| post_laws::holds(posts::list_field2(doc, "user"@, "following"@), j)
    ||| post_laws::holds(posts::list_field2(doc, "author"@, "following"@), j)
}

/// The accounts of a reply are those whose handles the listed documents give, in
/// ascending order and each once.
pub proof fn law_reply_lists_its_accounts(doc: JsonView, h: Seq<char>)
    ensures
        tiktok::following_of(doc).contains(h) <==> exists|j: JsonView| #[trigger]
            is_account(doc, j) && tiktok::account_handle(j) == Some(h),
        order::ascending(tiktok::following_of(doc)),
{
    let places = seq![
        json::list_field(doc, "following"@),
        json::list_field(doc, "followings"@),
        json::list_field(doc, "followers"@),
        json::list_field(doc, "userList"@),
        posts::list_field2(doc, "creator"@, "following"@),
        posts::list_field2(doc, "user"@, "following"@),
        posts::list_field2(doc, "author"@, "following"@),
    ];
    let items = tiktok::account_items(doc);
    let all = items.map_values(|j: JsonView| tiktok::account_handle(j));
    lists::lemma_present_members(all);
    order::lemma_sorted_set(tiktok::listed_handles(doc));
    if tiktok::following_of(doc).contains(h) {
        assert(tiktok::listed_handles(doc).contains(h));
        assert(all.contains(Some(h)));
        let i = choose|i: int| 0 <= i < all.len() && all[i] == Some(h);
        let j = items[i];
        assert(items.contains(j));
        post_laws::lemma_gathered(places, j);
        let k = choose|k: int|
            0 <= k < places.len() && (#[trigger] places[k]) is Some && places[k]->0.contains(j);
        assert(k == 0 || k == 1 || k == 2 || k == 3 || k == 4 || k == 5 || k == 6);
        assert(is_account(doc, j));
    }
    if exists|j: JsonView| #[trigger] is_account(doc, j) && tiktok::account_handle(j) == Some(h) {
        let j = choose|j: JsonView| #[trigger]
            is_account(doc, j) && tiktok::account_handle(j) == Some(h);
        post_laws::lemma_gathered(places, j);
        assert(places[0] == json::list_field(doc, "following"@));
        assert(places[1] == json::list_field(doc, "followings"@));
        assert(places[2] == json::list_field(doc, "followers"@));
        assert(places[3] == json::list_field(doc, "userList"@));
        assert(places[4] == posts::list_field2(doc, "creator"@, "following"@));
        assert(places[5] == posts::list_field2(doc, "user"@, "following"@));
        assert(places[6] == posts::list_field2(doc, "author"@, "following"@));
        assert(items.contains(j));
        let i = choose|i: int| 0 <= i < items.len() && items[i] == j;
        assert(all[i] == Some(h));
        assert(all.contains(Some(h)));
        assert(tiktok::listed_handles(doc).contains(h));
    }
}

proof fn lemma_handles_on(pages: Seq<JsonView>, h: Seq<char>)
    ensures
        tiktok::handles_on(pages).contains(h) <==> exists|i: int|
            0 <= i < pages.len() && tiktok::following_of(#[trigger] pages[i]).contains(h),
    decreases pages.len(),
{
    if pages.len() > 0 {
        let rest = pages.drop_last();
        lemma_handles_on(rest, h);
        let a = tiktok::handles_on(rest);
        let b = tiktok::following_of(pages.last());
        let s = a + b;
        if s.contains(h) {
            let k = choose|k: int| 0 <= k < s.len() && s[k] == h;
            if k < a.len() {
                assert(a[k] == h);
                assert(a.contains(h));
                let i = choose|i: int|
                    0 <= i < rest.len() && tiktok::following_of(#[trigger] rest[i]).contains(h);
                assert(pages[i] == rest[i]);
            } else {
                assert(b[k - a.len()] == h);
                assert(pages[pages.len() - 1] == pages.last());
            }
        }
        if exists|i: int|
            0 <= i < pages.len() && tiktok::following_of(#[trigger] pages[i]).contains(h) {
            let i = choose|i: int|
                0 <= i < pages.len() && tiktok::following_of(#[trigger] pages[i]).contains(h);
            if i < rest.len() {
                assert(rest[i] == pages[i]);
                assert(a.contains(h));
                let k = choose|k: int| 0 <= k < a.len() && a[k] == h;
                assert(s[k] == h);
            } else {
                let k = choose|k: int| 0 <= k < b.len() && b[k] == h;
                assert(s[a.len() + k] == h);
            }
        }
    }
}

// ---------------------------------------------------------------------------
// Counts and regions
// ---------------------------------------------------------------------------
/// The number of followers that a profile gives.
pub open spec fn followers_given(doc: JsonView) -> Option<u64> {
    reading::count_at(
        doc,
        seq![
            "follower_count"@,
            "followerCount"@,
            "followers"@,
            "followers_count"@,
            "stats.follower_count"@,
            "stats.followerCount"@,
            "statsV2.followerCount"@,
            "statsV2.follower_count"@,
            "user.follower_count"@,
            "user.followerCount"@,
            "user.followers"@,
            "user.stats.follower_count"@,
            "user.stats.followerCount"@,
            "userInfo.stats.followerCount"@,
            "userInfo.stats.follower_count"@,
            "profile.stats.followerCount"@,
            "profile.stats.follower_count"@,
        ],
    )
}

/// The number of followed accounts that a profile gives.
pub open spec fn followed_given(doc: JsonView) -> Option<u64> {
    reading::count_at(
        doc,
        seq![
            "following_count"@,
            "followingCount"@,
            "followings"@,
            "stats.following_count"@,
            "stats.followingCount"@,
            "statsV2.followingCount"@,
            "statsV2.following_count"@,
            "user.following_count"@,
            "user.followingCount"@,
            "user.followings"@,
            "user.stats.following_count"@,
            "user.stats.followingCount"@,
            "userInfo.stats.followingCount"@,
            "userInfo.stats.following_count"@,
            "profile.stats.followingCount"@,
            "profile.stats.following_count"@,
        ],
    )
}

/// The region that a document gives.
pub open spec fn region_given(doc: JsonView) -> Option<Seq<char>> {
    reading::string_at(doc, seq!["region"@, "country_code"@, "countryCode"@])
}

/// The market of a region, if one is given.
pub open spec fn market_given(region: Option<Seq<char>>) -> Option<Seq<char>> {
    match region {
        Some(r) => tiktok::country(r),
        None => None,
    }
}

/// The text names a handle, or the fallback stands for it.
pub open spec fn names_handle(named: Option<Seq<char>>, fallback: Seq<char>, h: Seq<char>) -> bool {
    if named is Some && handles::normalized_handle(named->0) is Some {
        handles::normalized_handle(named->0) == Some(h)
    } else {
        h == fallback
    }
}

// ---------------------------------------------------------------------------
// Replies of the social service
// ---------------------------------------------------------------------------
/// The user of a profile: its field `user`, else `user` in `userInfo`, else
/// `author`, else `user` in `profile`.
pub open spec fn is_user(profile: JsonView, user: JsonView) -> bool {
    if json::field(profile, "user"@) is Some {
        json::field(profile, "user"@) == Some(user)
    } else if json::field2(profile, "userInfo"@, "user"@) is Some {
        json::field2(profile, "userInfo"@, "user"@) == Some(user)
    } else if json::field(profile, "author"@) is Some {
        json::field(profile, "author"@) == Some(user)
    } else {
        json::field2(profile, "profile"@, "user"@) == Some(user)
    }
}

/// A document with the fields `profile` and `posts` gives a snapshot exactly if the
/// profile has a user; every other document gives one.
pub proof fn law_snapshot_needs_a_user(fallback: Seq<char>, value: Json)
    ensures
        json::field(value@, "profile"@) is Some && json::field(value@, "posts"@) is Some ==> (
        tiktok::snapshot_of(fallback, value@) is Some <==> exists|user: JsonView| #[trigger]
            is_user(json::field(value@, "profile"@)->0, user)),
        json::field(value@, "profile"@) is None || json::field(value@, "posts"@) is None
            ==> tiktok::snapshot_of(fallback, value@) is Some,
{
    if json::field(value@, "profile"@) is Some {
        let profile = json::field(value@, "profile"@)->0;
        if tiktok::social_user(profile) is Some {
            assert(is_user(profile, tiktok::social_user(profile)->0));
        }
    }
}

/// The snapshot of separate replies: handle, name and bio are those of the user,
/// the counts those of the profile, and the region the user's, else the profile's,
/// else that of the separate reply.
pub proof fn law_profile_values_come_from_their_places(
    fallback: Seq<char>,
    value: Json,
    snapshot: CreatorSnapshot,
    profile: JsonView,
    user: JsonView,
)
    requires
        tiktok::snapshot_of(fallback, value@) == Some(snapshot@),
        json::field(value@, "profile"@) == Some(profile),
        json::field(value@, "posts"@) is Some,
        is_user(profile, user),
    ensures
        names_handle(
            reading::string_at(user, seq!["unique_id"@, "uniqueId"@, "username"@, "handle"@]),
            fallback,
            snapshot.handle@,
        ),
        models::opt_text(snapshot.display_name) == reading::string_at(
            user,
            seq!["nickname"@, "display_name"@, "displayName"@, "name"@],
        ),
        snapshot.bio@ == match reading::string_at(
            user,
            seq!["signature"@, "bio"@, "description"@],
        ) {
            Some(t) => t,
            None => Seq::empty(),
        },
        snapshot.follower_count == followers_given(profile),
        snapshot.following_count == followed_given(profile),
        models::opt_text(snapshot.country_code) == if region_given(user) is Some {
            market_given(region_given(user))
        } else if region_given(profile) is Some {
            market_given(region_given(profile))
        } else if json::field(value@, "profile_region"@) is Some {
            market_given(region_given(json::field(value@, "profile_region"@)->0))
        } else {
            None
        },
{
    assert(tiktok::social_user(profile) == Some(user));
}

/// The posts of a snapshot are the newest of those that the reply for posts lists,
/// and its followed accounts those on the pages of accounts; where there are no
/// pages, those in the field `following`.
pub proof fn law_replies_are_all_read(
    fallback: Seq<char>,
    value: Json,
    snapshot: CreatorSnapshot,
    h: Seq<char>,
)
    requires
        tiktok::snapshot_of(fallback, value@) == Some(snapshot@),
        json::field(value@, "profile"@) is Some,
        json::field(value@, "posts"@) is Some,
    ensures
        models::post_views(snapshot.videos@) == posts::kept_posts(
            posts::posts_of(json::field(value@, "posts"@)->0),
        ),
        json::list_field(value@, "following_pages"@) is Some ==> {
            let pages = json::list_field(value@, "following_pages"@)->0;
            search::texts(snapshot.following@).contains(h) <==> exists|i: int|
                0 <= i < pages.len() && tiktok::following_of(#[trigger] pages[i]).contains(h)
        },
        json::list_field(value@, "following_pages"@) is None && json::list_field(
            value@,
            "following"@,
        ) is Some ==> {
            let accounts = json::list_field(value@, "following"@)->0;
            search::texts(snapshot.following@).contains(h) <==> exists|i: int|
                0 <= i < accounts.len() && tiktok::account_handle(#[trigger] accounts[i]) == Some(h)
        },
        json::list_field(value@, "following_pages"@) is None && json::field(
            value@,
            "following"@,
        ) is None ==> snapshot.following@.len() == 0,
        order::ascending(search::texts(snapshot.following@)),
{
    let pages = tiktok::social_pages(value@);
    let all = tiktok::handles_on(pages);
    assert(snapshot@.following == search::texts(snapshot.following@));
    assert(snapshot@.following == order::sorted_set(all));
    order::lemma_sorted_set(all);
    lemma_handles_on(pages, h);
    assert(search::texts(snapshot.following@).contains(h) <==> all.contains(h));
    if json::list_field(value@, "following_pages"@) is None {
        if json::field(value@, "following"@) is Some {
            let following = json::field(value@, "following"@)->0;
            let page = JsonView::Object(seq![("userList"@, following)]);
            assert(pages =~= seq![page]);
            assert(pages[0] == page);
            if let Some(accounts) = json::list_field(value@, "following"@) {
                lemma_one_page(accounts, h);
            }
        } else {
            assert(all.len() == 0);
            if snapshot.following@.len() > 0 {
                let t = snapshot@.following[0];
                assert(snapshot@.following.contains(t));
                assert(all.contains(t));
            }
        }
    }
}

proof fn lemma_one_page(accounts: Seq<JsonView>, h: Seq<char>)
    ensures
        tiktok::following_of(
            JsonView::Object(seq![("userList"@, JsonView::List(accounts))]),
        ).contains(h) <==> exists|i: int|
            0 <= i < accounts.len() && tiktok::account_handle(#[trigger] accounts[i]) == Some(h),
{
    let entries = seq![("userList"@, JsonView::List(accounts))];
    let page = JsonView::Object(entries);
    reveal_strlit("userList");
    reveal_strlit("following");
    reveal_strlit("followings");
    reveal_strlit("followers");
    reveal_strlit("creator");
    reveal_strlit("user");
    reveal_strlit("author");
    assert("userList"@.len() == 8);
    assert("following"@.len() == 9);
    assert("followings"@.len() == 10);
    assert("followers"@.len() == 9);
    assert("creator"@.len() == 7);
    assert("user"@.len() == 4);
    assert("author"@.len() == 6);
    assert(entries[0].0 == "userList"@);
    assert(entries.skip(1) =~= Seq::<(Seq<char>, JsonView)>::empty());
    reveal_with_fuel(json::entry, 2);
    assert(json::field(page, "userList"@) == Some(JsonView::List(accounts)));
    assert(json::field(page, "following"@) is None);
    assert(json::field(page, "followings"@) is None);
    assert(json::field(page, "followers"@) is None);
    assert(json::field(page, "creator"@) is None);
    assert(json::field(page, "user"@) is None);
    assert(json::field(page, "author"@) is None);
    law_reply_lists_its_accounts(page, h);
    assert forall|j: JsonView| #[trigger] is_account(page, j) <==> accounts.contains(j) by {}
    if exists|i: int|
        0 <= i < accounts.len() && tiktok::account_handle(#[trigger] accounts[i]) == Some(h) {
        let i = choose|i: int|
            0 <= i < accounts.len() && tiktok::account_handle(#[trigger] accounts[i]) == Some(h);
        assert(accounts.contains(accounts[i]));
        assert(is_account(page, accounts[i]));
    }
    if tiktok::following_of(page).contains(h) {
        let j = choose|j: JsonView| #[trigger]
            is_account(page, j) && tiktok::account_handle(j) == Some(h);
        let i = choose|i: int| 0 <= i < accounts.len() && accounts[i] == j;
        assert(tiktok::account_handle(accounts[i]) == Some(h));
    }
}

// ---------------------------------------------------------------------------
// One document
// ---------------------------------------------------------------------------
/// The document inside the field `data`, else `result`, else `response`, else the
/// document itself.
pub open spec fn is_inner(doc: JsonView, inner: JsonView) -> bool {
    if json::field(doc, "data"@) is Some {
        json::field(doc, "data"@) == Some(inner)
    } else if json::field(doc, "result"@) is Some {
        json::field(doc, "result"@) == Some(inner)
    } else if json::field(doc, "response"@) is Some {
        json::field(doc, "response"@) == Some(inner)
    } else {
        inner == doc
    }
}

/// The snapshot of one document: handle, name and bio are those of the user in it,
/// or its own where it has none; the counts, the posts and the accounts are its
/// own, and the region the user's, else its own. The document is kept.
pub proof fn law_document_values_come_from_their_places(
    fallback: Seq<char>,
    value: Json,
    snapshot: CreatorSnapshot,
    root: JsonView,
)
    requires
        tiktok::snapshot_of(fallback, value@) == Some(snapshot@),
        json::field(value@, "profile"@) is None || json::field(value@, "posts"@) is None,
        is_inner(value@, root),
    ensures
        ({
            let user = match reading::object_at(
                root,
                seq![
                    "creator"@,
                    "user"@,
                    "author"@,
                    "profile"@,
                    "userInfo.user"@,
                    "profile.userInfo.user"@,
                ],
            ) {
                Some(user) => user,
                None => root,
            };
            &&& names_handle(
                reading::string_at(
                    user,
                    seq![
                        "handle"@,
                        "uniqueId"@,
                        "unique_id"@,
                        "username"@,
                        "secUid"@,
                        "nickname"@,
                    ],
                ),
                fallback,
                snapshot.handle@,
            )
            &&& models::opt_text(snapshot.display_name) == reading::string_at(
                user,
                seq!["display_name"@, "displayName"@, "nickname"@, "name"@],
            )
            &&& snapshot.bio@ == match reading::string_at(
                user,
                seq![
                    "bio"@,
                    "signature"@,
                    "description"@,
                    "profile.bio"@,
                    "profile.signature"@,
                ],
            ) {
                Some(t) => t,
                None => Seq::empty(),
            }
            &&& models::opt_text(snapshot.country_code) == if region_given(user) is Some {
                market_given(region_given(user))
            } else {
                market_given(region_given(root))
            }
        }),
        snapshot.follower_count == followers_given(root),
        snapshot.following_count == followed_given(root),
        search::texts(snapshot.following@) == tiktok::following_of(root),
        models::post_views(snapshot.videos@) == posts::kept_posts(posts::posts_of(root)),
        snapshot.raw@ == root,
{
    assert(tiktok::unwrapped(value@) == root);
    assert(snapshot@ == tiktok::plain_snapshot(fallback, root));
    assert(snapshot@.following == search::texts(snapshot.following@));
    assert(snapshot@.videos == models::post_views(snapshot.videos@));
    assert(snapshot@.raw == snapshot.raw@);
}

/// The object that is read at several places is the one at the first of them at
/// which there is an object.
pub proof fn law_first_object_counts(doc: JsonView, places: Seq<Seq<char>>)
    ensures
        match reading::object_at(doc, places) {
            Some(j) => exists|i: int|
                0 <= i < places.len() && json::at_path(doc, #[trigger] places[i]) == Some(j) && j
                    is Object && forall|k: int|
                    0 <= k < i ==> json::at_path(doc, #[trigger] places[k]) is None
                        || json::at_path(doc, places[k])->0 !is Object,
            None => forall|k: int|
                0 <= k < places.len() ==> json::at_path(doc, #[trigger] places[k]) is None
                    || json::at_path(doc, places[k])->0 !is Object,
        },
    decreases places.len(),
{
    if places.len() > 0 {
        let rest = places.skip(1);
        law_first_object_counts(doc, rest);
        let here = json::at_path(doc, places[0]);
        if here is Some && here->0 is Object {
        } else {
            match reading::object_at(doc, rest) {
                Some(j) => {
                    let i = choose|i: int|
                        0 <= i < rest.len() && json::at_path(doc, #[trigger] rest[i]) == Some(j)
                            && j is Object && forall|k: int|
                            0 <= k < i ==> json::at_path(doc, #[trigger] rest[k]) is None
                                || json::at_path(doc, rest[k])->0 !is Object;
                    assert(places[i + 1] == rest[i]);
                    assert forall|k: int| 0 <= k < i + 1 implies json::at_path(
                        doc,
                        #[trigger] places[k],
                    ) is None || json::at_path(doc, places[k])->0 !is Object by {
                        if k > 0 {
                            assert(places[k] == rest[k - 1]);
                        }
                    }
                },
                None => {
                    assert forall|k: int| 0 <= k < places.len() implies json::at_path(
                        doc,
                        #[trigger] places[k],
                    ) is None || json::at_path(doc, places[k])->0 !is Object by {
                        if k > 0 {
                            assert(places[k] == rest[k - 1]);
                        }
                    }
                },
            }
        }
    }
}

/// The raw document of separate replies holds each of them under its name, and says
/// where they come from; the raw document of a single one is that.
pub proof fn law_replies_are_kept(
    fallback: Seq<char>,
    value: Json,
    snapshot: CreatorSnapshot,
)
    requires
        tiktok::snapshot_of(fallback, value@) == Some(snapshot@),
    ensures
        json::field(value@, "profile"@) is Some && json::field(value@, "posts"@) is Some ==> {
            let raw = snapshot.raw@;
            &&& json::text_field(raw, "provider"@) == Some("social_profile_scraper"@)
            &&& json::field(raw, "profile"@) == json::field(value@, "profile"@)
            &&& json::field(raw, "posts"@) == json::field(value@, "posts"@)
            &&& json::field(value@, "profile_region"@) is Some ==> json::field(
                raw,
                "profile_region"@,
            ) == json::field(value@, "profile_region"@)
            &&& json::field(value@, "profile_region"@) is None ==> json::field(
                raw,
                "profile_region"@,
            ) == Some(JsonView::Null)
            &&& json::list_field(value@, "following_pages"@) is Some ==> json::list_field(
                raw,
                "following_pages"@,
            ) == json::list_field(value@, "following_pages"@)
        },
        json::field(value@, "profile"@) is None || json::field(value@, "posts"@) is None
            ==> snapshot.raw@ == tiktok::unwrapped(value@),
{
    if json::field(value@, "profile"@) is Some && json::field(value@, "posts"@) is Some {
        reveal_strlit("provider");
        reveal_strlit("profile");
        reveal_strlit("profile_region");
        reveal_strlit("posts");
        reveal_strlit("following_pages");
        let raw = snapshot.raw@->Object_0;
        assert("provider"@.len() == 8 && "profile"@.len() == 7 && "profile_region"@.len() == 14
            && "posts"@.len() == 5 && "following_pages"@.len() == 15);
        assert(raw[0].0 == "provider"@ && raw[1].0 == "profile"@ && raw[2].0 == "profile_region"@
            && raw[3].0 == "posts"@ && raw[4].0 == "following_pages"@);
        assert(request_laws::all_named(raw));
        request_laws::lemma_fields(raw);
    }
}

} // verus!
