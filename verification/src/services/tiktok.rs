//! Profiles, as the profile services describe them.

use vstd::prelude::*;
use crate::handles;
use crate::json;
use crate::json::{Json, JsonView};
use crate::json_text;
use crate::lists;
use crate::models;
use crate::models::{CreatorSnapshot, SnapshotView};
use crate::order;
use crate::reading;
use crate::search;
use crate::services::posts;
use crate::text;

verus! {

// ---------------------------------------------------------------------------
// Countries
// ---------------------------------------------------------------------------
/// The market of a profile's region. Where the service gives a language in
/// place of a country, it is the language's home market.
pub open spec fn market(a: char, b: char) -> (char, char) {
    if (a, b) == ('A', 'R') {
        ('S', 'A')
    } else if (a, b) == ('B', 'E') {
        ('B', 'Y')
    } else if (a, b) == ('B', 'S') {
        ('B', 'A')
    } else if (a, b) == ('C', 'A') {
        ('E', 'S')
    } else if (a, b) == ('C', 'S') {
        ('C', 'Z')
    } else if (a, b) == ('D', 'A') {
        ('D', 'K')
    } else if (a, b) == ('E', 'L') {
        ('G', 'R')
    } else if (a, b) == ('E', 'N') {
        ('G', 'B')
    } else if (a, b) == ('E', 'T') {
        ('E', 'E')
    } else if (a, b) == ('F', 'A') {
        ('I', 'R')
    } else if (a, b) == ('H', 'E') {
        ('I', 'L')
    } else if (a, b) == ('H', 'I') {
        ('I', 'N')
    } else if (a, b) == ('J', 'A') {
        ('J', 'P')
    } else if (a, b) == ('K', 'K') {
        ('K', 'Z')
    } else if (a, b) == ('K', 'O') {
        ('K', 'R')
    } else if (a, b) == ('M', 'S') {
        ('M', 'Y')
    } else if (a, b) == ('N', 'B') || (a, b) == ('N', 'N') {
        ('N', 'O')
    } else if (a, b) == ('S', 'L') {
        ('S', 'I')
    } else if (a, b) == ('S', 'Q') {
        ('A', 'L')
    } else if (a, b) == ('S', 'R') {
        ('R', 'S')
    } else if (a, b) == ('S', 'V') {
        ('S', 'E')
    } else if (a, b) == ('T', 'L') {
        ('P', 'H')
    } else if (a, b) == ('U', 'K') {
        ('U', 'A')
    } else if (a, b) == ('U', 'R') {
        ('P', 'K')
    } else if (a, b) == ('V', 'I') {
        ('V', 'N')
    } else if (a, b) == ('Z', 'H') {
        ('C', 'N')
    } else {
        (a, b)
    }
}

/// The market that a region stands for: two letters in upper case, and nothing
/// where the region is not a code of two letters.
pub open spec fn country(region: Seq<char>) -> Option<Seq<char>> {
    let code = text::upper(text::trim(region));
    if code.len() == 2 && text::is_ascii_alpha(code[0]) && text::is_ascii_alpha(code[1]) {
        let pair = market(code[0], code[1]);
        Some(seq![pair.0, pair.1])
    } else {
        None
    }
}

fn is_pair(a: char, b: char, x: char, y: char) -> (r: bool)
    ensures
        r == ((a, b) == (x, y)),
{
    a == x && b == y
}

/// The market of a profile's region, given as two letters in upper case.
pub fn market_of(a: char, b: char) -> (r: (char, char))
    ensures
        r == market(a, b),
{
    if is_pair(a, b, 'A', 'R') {
        ('S', 'A')
    } else if is_pair(a, b, 'B', 'E') {
        ('B', 'Y')
    } else if is_pair(a, b, 'B', 'S') {
        ('B', 'A')
    } else if is_pair(a, b, 'C', 'A') {
        ('E', 'S')
    } else if is_pair(a, b, 'C', 'S') {
        ('C', 'Z')
    } else if is_pair(a, b, 'D', 'A') {
        ('D', 'K')
    } else if is_pair(a, b, 'E', 'L') {
        ('G', 'R')
    } else if is_pair(a, b, 'E', 'N') {
        ('G', 'B')
    } else if is_pair(a, b, 'E', 'T') {
        ('E', 'E')
    } else if is_pair(a, b, 'F', 'A') {
        ('I', 'R')
    } else if is_pair(a, b, 'H', 'E') {
        ('I', 'L')
    } else if is_pair(a, b, 'H', 'I') {
        ('I', 'N')
    } else if is_pair(a, b, 'J', 'A') {
        ('J', 'P')
    } else if is_pair(a, b, 'K', 'K') {
        ('K', 'Z')
    } else if is_pair(a, b, 'K', 'O') {
        ('K', 'R')
    } else if is_pair(a, b, 'M', 'S') {
        ('M', 'Y')
    } else if is_pair(a, b, 'N', 'B') || is_pair(a, b, 'N', 'N') {
        ('N', 'O')
    } else if is_pair(a, b, 'S', 'L') {
        ('S', 'I')
    } else if is_pair(a, b, 'S', 'Q') {
        ('A', 'L')
    } else if is_pair(a, b, 'S', 'R') {
        ('R', 'S')
    } else if is_pair(a, b, 'S', 'V') {
        ('S', 'E')
    } else if is_pair(a, b, 'T', 'L') {
        ('P', 'H')
    } else if is_pair(a, b, 'U', 'K') {
        ('U', 'A')
    } else if is_pair(a, b, 'U', 'R') {
        ('P', 'K')
    } else if is_pair(a, b, 'V', 'I') {
        ('V', 'N')
    } else if is_pair(a, b, 'Z', 'H') {
        ('C', 'N')
    } else {
        (a, b)
    }
}

/// The market that a region stands for.
pub fn normalize_country_code(value: &str) -> (r: Option<String>)
    ensures
        models::opt_text(r) == country(value@),
{
    let trimmed: String = text::trim_of(value);
    let code: String = text::to_upper(trimmed.as_str());
    let v: Vec<char> = text::chars_of(code.as_str());
    if v.len() == 2 && text::ascii_alpha(v[0]) && text::ascii_alpha(v[1]) {
        let pair: (char, char) = market_of(v[0], v[1]);
        let mut r: String = String::new();
        r.push(pair.0);
        r.push(pair.1);
        assert(r@ =~= seq![pair.0, pair.1]);
        Some(r)
    } else {
        None
    }
}

/// A market is two letters in upper case, and stands for itself.
pub proof fn law_country_idempotent(region: Seq<char>)
    requires
        country(region) is Some,
    ensures
        country(region)->0.len() == 2,
        text::is_ascii_upper(country(region)->0[0]),
        text::is_ascii_upper(country(region)->0[1]),
        country(country(region)->0) == country(region),
{
    let code = text::upper(text::trim(region));
    let trimmed = text::trim(region);
    assert(code[0] == text::upper_char(trimmed[0]));
    assert(code[1] == text::upper_char(trimmed[1]));
    assert(text::is_ascii_upper(code[0]));
    assert(text::is_ascii_upper(code[1]));
    let c = country(region)->0;
    assert(c[0] == market(code[0], code[1]).0);
    assert(c[1] == market(code[0], code[1]).1);
    text::lemma_trimmed(c, text::CharClass::White);
    assert(text::upper(c) =~= c);
    assert(market(c[0], c[1]) == (c[0], c[1]));
    assert(country(c)->0 =~= c);
}

// ---------------------------------------------------------------------------
// Followed accounts
// ---------------------------------------------------------------------------
/// The paths at which an account gives its handle.
pub open spec fn account_keys() -> Seq<Seq<char>> {
    seq![
        "handle"@,
        "uniqueId"@,
        "unique_id"@,
        "username"@,
        "nickname"@,
        "user.uniqueId"@,
        "user.unique_id"@,
        "user.username"@,
    ]
}

/// The handle at the first of the paths `keys` that gives one.
pub open spec fn handle_among(json: JsonView, keys: Seq<Seq<char>>) -> Option<Seq<char>>
    decreases keys.len(),
{
    if keys.len() == 0 {
        None
    } else {
        let here = match reading::string_at(json, seq![keys[0]]) {
            Some(t) => handles::normalized_handle(t),
            None => None,
        };
        if here is Some {
            here
        } else {
            handle_among(json, keys.skip(1))
        }
    }
}

/// The handle of an account: a text names it, else one of its fields does.
pub open spec fn account_handle(json: JsonView) -> Option<Seq<char>> {
    match json {
        JsonView::Text(t) => handles::normalized_handle(t),
        _ => handle_among(json, account_keys()),
    }
}

/// The handle of an account.
pub fn parse_handle_value(value: &Json) -> (r: Option<String>)
    ensures
        models::opt_text(r) == account_handle(value@),
{
    if let Json::Text(t) = value {
        return handles::normalize_handle(t.as_str());
    }
    let keys: Vec<&str> = vec![
        "handle",
        "uniqueId",
        "unique_id",
        "username",
        "nickname",
        "user.uniqueId",
        "user.unique_id",
        "user.username",
    ];
    let ghost all = account_keys();
    assert(reading::names(keys@) =~= all);
    let mut i: usize = 0;
    assert(all.skip(0) =~= all);
    while i < keys.len()
        invariant
            i <= keys@.len(),
            all == reading::names(keys@),
            account_handle(value@) == handle_among(value@, all.skip(i as int)),
        decreases keys@.len() - i,
    {
        let key: Vec<&str> = vec![keys[i]];
        proof {
            assert(all.skip(i as int)[0] == keys@[i as int]@);
            assert(all.skip(i as int).skip(1) =~= all.skip(i + 1));
            assert(reading::names(key@) =~= seq![all.skip(i as int)[0]]);
        }
        if let Some(t) = reading::first_string(value, key.as_slice()) {
            let handle: Option<String> = handles::normalize_handle(t.as_str());
            if handle.is_some() {
                return handle;
            }
        }
        i = i + 1;
    }
    None
}

/// The documents that may describe followed accounts.
pub open spec fn account_items(json: JsonView) -> Seq<JsonView> {
    posts::gathered(
        seq![
            json::list_field(json, "following"@),
            json::list_field(json, "followings"@),
            json::list_field(json, "followers"@),
            json::list_field(json, "userList"@),
            posts::list_field2(json, "creator"@, "following"@),
            posts::list_field2(json, "user"@, "following"@),
            posts::list_field2(json, "author"@, "following"@),
        ],
    )
}

/// The handles of the accounts that a document lists.
pub open spec fn listed_handles(json: JsonView) -> Seq<Seq<char>> {
    lists::present(account_items(json).map_values(|j: JsonView| account_handle(j)))
}

/// The handles of the accounts that a document lists, in ascending order, each
/// once.
pub open spec fn following_of(json: JsonView) -> Seq<Seq<char>> {
    order::sorted_set(listed_handles(json))
}

/// The handles of the accounts that a document lists.
pub fn parse_following(root: &Json) -> (r: Vec<String>)
    ensures
        search::texts(r@) == following_of(root@),
{
    let places: Vec<Option<&Vec<Json>>> = vec![
        root.get_list("following"),
        root.get_list("followings"),
        root.get_list("followers"),
        root.get_list("userList"),
        posts::list_in(root, "creator", "following"),
        posts::list_in(root, "user", "following"),
        posts::list_in(root, "author", "following"),
    ];
    let items: Vec<&Json> = posts::gather(&places);
    proof {
        assert(posts::place_views(places@) =~= seq![
            json::list_field(root@, "following"@),
            json::list_field(root@, "followings"@),
            json::list_field(root@, "followers"@),
            json::list_field(root@, "userList"@),
            posts::list_field2(root@, "creator"@, "following"@),
            posts::list_field2(root@, "user"@, "following"@),
            posts::list_field2(root@, "author"@, "following"@),
        ]);
    }
    let ghost all = account_items(root@).map_values(|j: JsonView| account_handle(j));
    let mut found: Vec<String> = Vec::new();
    let mut i: usize = 0;
    assert(search::texts(found@) =~= lists::present(all.take(0)));
    while i < items.len()
        invariant
            i <= items@.len(),
            account_items(root@) == posts::ref_views(items@),
            all == account_items(root@).map_values(|j: JsonView| account_handle(j)),
            search::texts(found@) == lists::present(all.take(i as int)),
        decreases items@.len() - i,
    {
        let ghost before = found@;
        proof {
            assert(all.take(i + 1) =~= all.take(i as int).push(all[i as int]));
            lists::lemma_present_push(all.take(i as int), all[i as int]);
            assert(all[i as int] == account_handle(items@[i as int]@));
        }
        if let Some(handle) = parse_handle_value(items[i]) {
            found.push(handle);
            assert(search::texts(found@) =~= search::texts(before).push(handle@));
        }
        i = i + 1;
    }
    assert(all.take(i as int) =~= all);
    order::sort_texts(&found)
}

/// The handles on several pages, page after page.
pub open spec fn handles_on(pages: Seq<JsonView>) -> Seq<Seq<char>>
    decreases pages.len(),
{
    if pages.len() == 0 {
        Seq::empty()
    } else {
        handles_on(pages.drop_last()) + following_of(pages.last())
    }
}

fn collect_following(pages: &Vec<Json>) -> (r: Vec<String>)
    ensures
        search::texts(r@) == order::sorted_set(handles_on(json::views(pages@))),
{
    let ghost all = json::views(pages@);
    let mut found: Vec<String> = Vec::new();
    let mut i: usize = 0;
    assert(search::texts(found@) =~= handles_on(all.take(0)));
    while i < pages.len()
        invariant
            i <= pages@.len(),
            all == json::views(pages@),
            search::texts(found@) == handles_on(all.take(i as int)),
        decreases pages@.len() - i,
    {
        let ghost before = search::texts(found@);
        let mut page: Vec<String> = parse_following(&pages[i]);
        let ghost added = search::texts(page@);
        found.append(&mut page);
        proof {
            assert(search::texts(found@) =~= before + added);
            assert(all.take(i + 1).drop_last() =~= all.take(i as int));
            assert(all.take(i + 1).last() == pages@[i as int]@);
        }
        i = i + 1;
    }
    assert(all.take(i as int) =~= all);
    order::sort_texts(&found)
}

// ---------------------------------------------------------------------------
// Counts
// ---------------------------------------------------------------------------
/// The paths at which a profile says how many accounts follow it.
pub open spec fn follower_keys() -> Seq<Seq<char>> {
    seq![
        "follower_count"@,
        "followerCount"@,
        "followers"@,
        "followers_count"@,
        "stats.follower_count"@,
        "stats.followerCount"@,
        "statsV2.followerCount"@,
        "statsV2.follower_count"@,
        "user.follower_count"@,
        "user.followerCount"@,
        "user.followers"@,
        "user.stats.follower_count"@,
        "user.stats.followerCount"@,
        "userInfo.stats.followerCount"@,
        "userInfo.stats.follower_count"@,
        "profile.stats.followerCount"@,
        "profile.stats.follower_count"@,
    ]
}

/// The paths at which a profile says how many accounts it follows.
pub open spec fn following_keys() -> Seq<Seq<char>> {
    seq![
        "following_count"@,
        "followingCount"@,
        "followings"@,
        "stats.following_count"@,
        "stats.followingCount"@,
        "statsV2.followingCount"@,
        "statsV2.following_count"@,
        "user.following_count"@,
        "user.followingCount"@,
        "user.followings"@,
        "user.stats.following_count"@,
        "user.stats.followingCount"@,
        "userInfo.stats.followingCount"@,
        "userInfo.stats.following_count"@,
        "profile.stats.followingCount"@,
        "profile.stats.following_count"@,
    ]
}

/// How many accounts follow the profile.
pub fn parse_profile_follower_count(root: &Json) -> (r: Option<u64>)
    ensures
        r == reading::count_at(root@, follower_keys()),
{
    let keys: Vec<&str> = vec![
        "follower_count",
        "followerCount",
        "followers",
        "followers_count",
        "stats.follower_count",
        "stats.followerCount",
        "statsV2.followerCount",
        "statsV2.follower_count",
        "user.follower_count",
        "user.followerCount",
        "user.followers",
        "user.stats.follower_count",
        "user.stats.followerCount",
        "userInfo.stats.followerCount",
        "userInfo.stats.follower_count",
        "profile.stats.followerCount",
        "profile.stats.follower_count",
    ];
    assert(reading::names(keys@) =~= follower_keys());
    reading::first_u64(root, keys.as_slice())
}

/// How many accounts the profile follows.
pub fn parse_profile_following_count(root: &Json) -> (r: Option<u64>)
    ensures
        r == reading::count_at(root@, following_keys()),
{
    let keys: Vec<&str> = vec![
        "following_count",
        "followingCount",
        "followings",
        "stats.following_count",
        "stats.followingCount",
        "statsV2.followingCount",
        "statsV2.following_count",
        "user.following_count",
        "user.followingCount",
        "user.followings",
        "user.stats.following_count",
        "user.stats.followingCount",
        "userInfo.stats.followingCount",
        "userInfo.stats.following_count",
        "profile.stats.followingCount",
        "profile.stats.following_count",
    ];
    assert(reading::names(keys@) =~= following_keys());
    reading::first_u64(root, keys.as_slice())
}

// ---------------------------------------------------------------------------
// Snapshots
// ---------------------------------------------------------------------------
/// Why no snapshot of a creator could be made.
pub enum SnapshotError {
    /// The profile does not describe a user.
    NoUser,
    /// The text is not valid JSON; with the reason.
    InvalidJson(String),
}

impl SnapshotError {
    /// The error in words.
    pub fn message(&self) -> (r: String)
        ensures
            match self {
                SnapshotError::NoUser => r@ == "scraper profile did not include a user object"@,
                SnapshotError::InvalidJson(reason) => r@ == reason@,
            },
    {
        match self {
            SnapshotError::NoUser => "scraper profile did not include a user object".to_string(),
            SnapshotError::InvalidJson(reason) => reason.clone(),
        }
    }
}

/// The paths at which a region is given.
pub open spec fn region_keys() -> Seq<Seq<char>> {
    seq!["region"@, "country_code"@, "countryCode"@]
}

/// The region that a document gives.
pub fn first_region(value: &Json) -> (r: Option<String>)
    ensures
        models::opt_text(r) == reading::string_at(value@, region_keys()),
{
    let keys: Vec<&str> = vec!["region", "country_code", "countryCode"];
    assert(reading::names(keys@) =~= region_keys());
    reading::first_string(value, keys.as_slice())
}

/// The market of the region, if there is one.
pub open spec fn country_opt(region: Option<Seq<char>>) -> Option<Seq<char>> {
    match region {
        Some(r) => country(r),
        None => None,
    }
}

fn country_of(region: &Option<String>) -> (r: Option<String>)
    ensures
        models::opt_text(r) == country_opt(models::opt_text(*region)),
{
    match region {
        Some(t) => normalize_country_code(t.as_str()),
        None => None,
    }
}

/// The market that the answer to a question for a profile's region gives.
pub fn parse_region_country(region: &Json) -> (r: Option<String>)
    ensures
        models::opt_text(r) == country_opt(reading::string_at(region@, region_keys())),
{
    let given: Option<String> = first_region(region);
    country_of(&given)
}

/// The first of the two that is there.
pub open spec fn either<A>(a: Option<A>, b: Option<A>) -> Option<A> {
    if a is Some {
        a
    } else {
        b
    }
}

/// The canonical handle that the text names, else the fallback.
pub open spec fn handle_or(named: Option<Seq<char>>, fallback: Seq<char>) -> Seq<char> {
    match named {
        Some(t) => match handles::normalized_handle(t) {
            Some(h) => h,
            None => fallback,
        },
        None => fallback,
    }
}

fn choose_handle(named: &Option<String>, fallback: &str) -> (r: String)
    ensures
        r@ == handle_or(models::opt_text(*named), fallback@),
{
    match named {
        Some(t) => match handles::normalize_handle(t.as_str()) {
            Some(h) => h,
            None => fallback.to_string(),
        },
        None => fallback.to_string(),
    }
}

/// The text, or the empty text.
pub open spec fn or_empty(t: Option<Seq<char>>) -> Seq<char> {
    match t {
        Some(t) => t,
        None => Seq::empty(),
    }
}

fn text_or_empty(t: Option<String>) -> (r: String)
    ensures
        r@ == or_empty(models::opt_text(t)),
{
    match t {
        Some(t) => t,
        None => {
            let r = String::new();
            assert(r@ =~= Seq::<char>::empty());
            r
        },
    }
}

/// The user that a profile of the social service describes.
pub open spec fn social_user(profile: JsonView) -> Option<JsonView> {
    either(
        json::field(profile, "user"@),
        either(
            json::field2(profile, "userInfo"@, "user"@),
            either(
                json::field(profile, "author"@),
                json::field2(profile, "profile"@, "user"@),
            ),
        ),
    )
}

fn find_social_user(profile: &Json) -> (r: Option<&Json>)
    ensures
        json::found(r, social_user(profile@)),
{
    let a: Option<&Json> = profile.get("user");
    if a.is_some() {
        return a;
    }
    let b: Option<&Json> = profile.get2("userInfo", "user");
    if b.is_some() {
        return b;
    }
    let c: Option<&Json> = profile.get("author");
    if c.is_some() {
        return c;
    }
    profile.get2("profile", "user")
}

/// The region of a profile: the user's, else the profile's, else the separate
/// answer's.
pub open spec fn social_region(
    user: JsonView,
    profile: JsonView,
    profile_region: Option<JsonView>,
) -> Option<Seq<char>> {
    either(
        reading::string_at(user, region_keys()),
        either(
            reading::string_at(profile, region_keys()),
            match profile_region {
                Some(region) => reading::string_at(region, region_keys()),
                None => None,
            },
        ),
    )
}

/// The view of an optional document.
pub open spec fn opt_json(o: Option<Json>) -> Option<JsonView> {
    match o {
        Some(j) => Some(j@),
        None => None,
    }
}

/// The answers of the social service, together in one document.
pub open spec fn social_raw(
    profile: JsonView,
    posts: JsonView,
    following_pages: Seq<JsonView>,
    profile_region: Option<JsonView>,
) -> JsonView {
    JsonView::Object(
        seq![
            ("provider"@, JsonView::Text("social_profile_scraper"@)),
            ("profile"@, profile),
            (
                "profile_region"@,
                match profile_region {
                    Some(region) => region,
                    None => JsonView::Null,
                },
            ),
            ("posts"@, posts),
            ("following_pages"@, JsonView::List(following_pages)),
        ],
    )
}

/// The creator that the answers of the social service describe, given the user
/// in the profile.
pub open spec fn social_snapshot(
    fallback: Seq<char>,
    user: JsonView,
    profile: JsonView,
    posts: JsonView,
    following_pages: Seq<JsonView>,
    profile_region: Option<JsonView>,
) -> SnapshotView {
    SnapshotView {
        handle: handle_or(
            reading::string_at(user, seq!["unique_id"@, "uniqueId"@, "username"@, "handle"@]),
            fallback,
        ),
        display_name: reading::string_at(
            user,
            seq!["nickname"@, "display_name"@, "displayName"@, "name"@],
        ),
        country_code: country_opt(social_region(user, profile, profile_region)),
        bio: or_empty(reading::string_at(user, seq!["signature"@, "bio"@, "description"@])),
        follower_count: reading::count_at(profile, follower_keys()),
        following_count: reading::count_at(profile, following_keys()),
        following: order::sorted_set(handles_on(following_pages)),
        videos: posts::kept_posts(posts::posts_of(posts)),
        raw: social_raw(profile, posts, following_pages, profile_region),
    }
}

fn find_social_region(
    user: &Json,
    profile: &Json,
    profile_region: &Option<Json>,
) -> (r: Option<String>)
    ensures
        models::opt_text(r) == social_region(user@, profile@, opt_json(*profile_region)),
{
    let a: Option<String> = first_region(user);
    if a.is_some() {
        return a;
    }
    let b: Option<String> = first_region(profile);
    if b.is_some() {
        return b;
    }
    match profile_region {
        Some(region) => first_region(region),
        None => None,
    }
}

fn build_social_raw(
    profile: Json,
    posts: Json,
    following_pages: Vec<Json>,
    profile_region: Option<Json>,
) -> (r: Json)
    ensures
        r@ == social_raw(
            profile@,
            posts@,
            json::views(following_pages@),
            opt_json(profile_region),
        ),
{
    broadcast use {json::lemma_list_view, json::lemma_object_view};

    let region: Json = match profile_region {
        Some(region) => region,
        None => Json::Null,
    };
    let provider: Json = Json::Text("social_profile_scraper".to_string());
    let pages: Json = Json::List(following_pages);
    let entries: Vec<(String, Json)> = vec![
        ("provider".to_string(), provider),
        ("profile".to_string(), profile),
        ("profile_region".to_string(), region),
        ("posts".to_string(), posts),
        ("following_pages".to_string(), pages),
    ];
    proof {
        assert(json::entry_views(entries@) =~= social_raw(
            profile@,
            posts@,
            json::views(following_pages@),
            opt_json(profile_region),
        )->Object_0);
    }
    Json::Object(entries)
}

/// The creator that the answers of the social service describe.
pub fn snapshot_from_social_values(
    fallback_handle: &str,
    profile: Json,
    posts: Json,
    following_pages: Vec<Json>,
    profile_region: Option<Json>,
) -> (r: Result<CreatorSnapshot, SnapshotError>)
    ensures
        match r {
            Ok(snapshot) => social_user(profile@) is Some && snapshot@ == social_snapshot(
                fallback_handle@,
                social_user(profile@)->0,
                profile@,
                posts@,
                json::views(following_pages@),
                opt_json(profile_region),
            ) && models::dates_wf(snapshot@.videos),
            Err(error) => social_user(profile@) is None && error is NoUser,
        },
{
    let user: &Json = match find_social_user(&profile) {
        Some(user) => user,
        None => {
            return Err(SnapshotError::NoUser);
        },
    };
    let handle_keys: Vec<&str> = vec!["unique_id", "uniqueId", "username", "handle"];
    assert(reading::names(handle_keys@) =~= seq![
        "unique_id"@,
        "uniqueId"@,
        "username"@,
        "handle"@,
    ]);
    let bio_keys: Vec<&str> = vec!["signature", "bio", "description"];
    assert(reading::names(bio_keys@) =~= seq!["signature"@, "bio"@, "description"@]);
    let name_keys: Vec<&str> = vec!["nickname", "display_name", "displayName", "name"];
    assert(reading::names(name_keys@) =~= seq![
        "nickname"@,
        "display_name"@,
        "displayName"@,
        "name"@,
    ]);
    let named: Option<String> = reading::first_string(user, handle_keys.as_slice());
    let handle: String = choose_handle(&named, fallback_handle);
    let bio: String = text_or_empty(reading::first_string(user, bio_keys.as_slice()));
    let display_name: Option<String> = reading::first_string(user, name_keys.as_slice());
    let region: Option<String> = find_social_region(user, &profile, &profile_region);
    let country_code: Option<String> = country_of(&region);
    let follower_count: Option<u64> = parse_profile_follower_count(&profile);
    let following_count: Option<u64> = parse_profile_following_count(&profile);
    let following: Vec<String> = collect_following(&following_pages);
    let all_posts: Vec<models::TiktokPost> = posts::parse_videos(&posts);
    let videos: Vec<models::TiktokPost> = posts::keep_newest(&all_posts);
    let raw: Json = build_social_raw(profile, posts, following_pages, profile_region);
    Ok(
        CreatorSnapshot {
            handle,
            display_name,
            country_code,
            bio,
            follower_count,
            following_count,
            following,
            videos,
            raw,
        },
    )
}

/// The document inside the wrapping that some services put around it.
pub open spec fn unwrapped(json: JsonView) -> JsonView {
    match either(
        json::field(json, "data"@),
        either(json::field(json, "result"@), json::field(json, "response"@)),
    ) {
        Some(inner) => inner,
        None => json,
    }
}

/// The document inside the wrapping that some services put around it.
pub fn unwrap_data(value: Json) -> (r: Json)
    ensures
        r@ == unwrapped(value@),
{
    if let Some(inner) = value.get("data") {
        return inner.copy();
    }
    if let Some(inner) = value.get("result") {
        return inner.copy();
    }
    if let Some(inner) = value.get("response") {
        return inner.copy();
    }
    value
}

/// The paths at which a document of its own describes the user.
pub open spec fn user_keys() -> Seq<Seq<char>> {
    seq![
        "creator"@,
        "user"@,
        "author"@,
        "profile"@,
        "userInfo.user"@,
        "profile.userInfo.user"@,
    ]
}

/// The document that describes the user: one inside `root`, else `root`.
pub open spec fn plain_user(root: JsonView) -> JsonView {
    match reading::object_at(root, user_keys()) {
        Some(user) => user,
        None => root,
    }
}

/// The creator that one document describes.
pub open spec fn plain_snapshot(fallback: Seq<char>, root: JsonView) -> SnapshotView {
    let user = plain_user(root);
    SnapshotView {
        handle: handle_or(
            reading::string_at(
                user,
                seq![
                    "handle"@,
                    "uniqueId"@,
                    "unique_id"@,
                    "username"@,
                    "secUid"@,
                    "nickname"@,
                ],
            ),
            fallback,
        ),
        display_name: reading::string_at(
            user,
            seq!["display_name"@, "displayName"@, "nickname"@, "name"@],
        ),
        country_code: country_opt(
            either(
                reading::string_at(user, region_keys()),
                reading::string_at(root, region_keys()),
            ),
        ),
        bio: or_empty(
            reading::string_at(
                user,
                seq![
                    "bio"@,
                    "signature"@,
                    "description"@,
                    "profile.bio"@,
                    "profile.signature"@,
                ],
            ),
        ),
        follower_count: reading::count_at(root, follower_keys()),
        following_count: reading::count_at(root, following_keys()),
        following: following_of(root),
        videos: posts::kept_posts(posts::posts_of(root)),
        raw: root,
    }
}

/// The document holds the separate answers of the social service.
pub open spec fn is_social(json: JsonView) -> bool {
    json::field(json, "profile"@) is Some && json::field(json, "posts"@) is Some
}

/// The pages of followed accounts in a document with separate answers.
pub open spec fn social_pages(json: JsonView) -> Seq<JsonView> {
    match json::list_field(json, "following_pages"@) {
        Some(pages) => pages,
        None => match json::field(json, "following"@) {
            Some(following) => seq![JsonView::Object(seq![("userList"@, following)])],
            None => Seq::empty(),
        },
    }
}

/// The creator that a document describes, or why there is none.
pub open spec fn snapshot_of(
    fallback: Seq<char>,
    json: JsonView,
) -> Option<SnapshotView> {
    if is_social(json) {
        let profile = json::field(json, "profile"@)->0;
        match social_user(profile) {
            Some(user) => Some(
                social_snapshot(
                    fallback,
                    user,
                    profile,
                    json::field(json, "posts"@)->0,
                    social_pages(json),
                    json::field(json, "profile_region"@),
                ),
            ),
            None => None,
        }
    } else {
        Some(plain_snapshot(fallback, unwrapped(json)))
    }
}

fn copy_pages(value: &Json) -> (r: Vec<Json>)
    ensures
        json::views(r@) == social_pages(value@),
{
    broadcast use {json::lemma_list_view, json::lemma_object_view};

    match value.get_list("following_pages") {
        Some(pages) => {
            let mut r: Vec<Json> = Vec::new();
            let mut i: usize = 0;
            while i < pages.len()
                invariant
                    i <= pages@.len(),
                    json::views(r@) == json::views(pages@).take(i as int),
                decreases pages@.len() - i,
            {
                let ghost before = r@;
                r.push(pages[i].copy());
                i = i + 1;
                proof {
                    assert(json::views(r@) =~= json::views(before).push(pages@[i - 1]@));
                    assert(json::views(pages@).take(i as int) =~= json::views(pages@).take(
                        i - 1,
                    ).push(pages@[i - 1]@));
                }
            }
            assert(json::views(pages@).take(i as int) =~= json::views(pages@));
            r
        },
        None => match value.get("following") {
            Some(following) => {
                let entries: Vec<(String, Json)> = vec![
                    ("userList".to_string(), following.copy()),
                ];
                assert(json::entry_views(entries@) =~= seq![("userList"@, following@)]);
                let r: Vec<Json> = vec![Json::Object(entries)];
                assert(json::views(r@) =~= social_pages(value@));
                r
            },
            None => {
                let r: Vec<Json> = Vec::new();
                assert(json::views(r@) =~= social_pages(value@));
                r
            },
        },
    }
}

fn snapshot_from_plain(fallback_handle: &str, root: Json) -> (r: CreatorSnapshot)
    ensures
        r@ == plain_snapshot(fallback_handle@, root@),
        models::dates_wf(r@.videos),
{
    let in_root: Vec<&str> = vec![
        "creator",
        "user",
        "author",
        "profile",
        "userInfo.user",
        "profile.userInfo.user",
    ];
    assert(reading::names(in_root@) =~= user_keys());
    let user: &Json = match reading::first_object(&root, in_root.as_slice()) {
        Some(user) => user,
        None => &root,
    };
    let handle_keys: Vec<&str> = vec![
        "handle",
        "uniqueId",
        "unique_id",
        "username",
        "secUid",
        "nickname",
    ];
    assert(reading::names(handle_keys@) =~= seq![
        "handle"@,
        "uniqueId"@,
        "unique_id"@,
        "username"@,
        "secUid"@,
        "nickname"@,
    ]);
    let bio_keys: Vec<&str> = vec![
        "bio",
        "signature",
        "description",
        "profile.bio",
        "profile.signature",
    ];
    assert(reading::names(bio_keys@) =~= seq![
        "bio"@,
        "signature"@,
        "description"@,
        "profile.bio"@,
        "profile.signature"@,
    ]);
    let name_keys: Vec<&str> = vec!["display_name", "displayName", "nickname", "name"];
    assert(reading::names(name_keys@) =~= seq![
        "display_name"@,
        "displayName"@,
        "nickname"@,
        "name"@,
    ]);
    let named: Option<String> = reading::first_string(user, handle_keys.as_slice());
    let handle: String = choose_handle(&named, fallback_handle);
    let bio: String = text_or_empty(reading::first_string(user, bio_keys.as_slice()));
    let display_name: Option<String> = reading::first_string(user, name_keys.as_slice());
    let user_region: Option<String> = first_region(user);
    let region: Option<String> = if user_region.is_some() {
        user_region
    } else {
        first_region(&root)
    };
    let country_code: Option<String> = country_of(&region);
    let follower_count: Option<u64> = parse_profile_follower_count(&root);
    let following_count: Option<u64> = parse_profile_following_count(&root);
    let following: Vec<String> = parse_following(&root);
    let all_posts: Vec<models::TiktokPost> = posts::parse_videos(&root);
    let videos: Vec<models::TiktokPost> = posts::keep_newest(&all_posts);
    CreatorSnapshot {
        handle,
        display_name,
        country_code,
        bio,
        follower_count,
        following_count,
        following,
        videos,
        raw: root,
    }
}

/// The creator that a document describes: one document of its own, or the
/// separate answers of the social service together.
pub fn parse_creator_snapshot(fallback_handle: &str, value: Json) -> (r: Result<
    CreatorSnapshot,
    SnapshotError,
>)
    ensures
        match r {
            Ok(snapshot) => snapshot_of(fallback_handle@, value@) == Some(snapshot@)
                && models::dates_wf(snapshot@.videos),
            Err(error) => snapshot_of(fallback_handle@, value@) is None && error is NoUser,
        },
{
    let profile: Option<Json> = match value.get("profile") {
        Some(profile) => Some(profile.copy()),
        None => None,
    };
    let posts: Option<Json> = match value.get("posts") {
        Some(posts) => Some(posts.copy()),
        None => None,
    };
    match (profile, posts) {
        (Some(profile), Some(posts)) => {
            let following_pages: Vec<Json> = copy_pages(&value);
            let profile_region: Option<Json> = match value.get("profile_region") {
                Some(region) => Some(region.copy()),
                None => None,
            };
            assert(opt_json(profile_region) == json::field(value@, "profile_region"@));
            snapshot_from_social_values(
                fallback_handle,
                profile,
                posts,
                following_pages,
                profile_region,
            )
        },
        _ => {
            let root: Json = unwrap_data(value);
            Ok(snapshot_from_plain(fallback_handle, root))
        },
    }
}

/// A scraper that reads its answers from files.
pub struct FixtureTikTokScraper {
    pub path: String,
}

impl FixtureTikTokScraper {
    /// A scraper that reads its answers from `path`, a file or a directory.
    pub fn new(path: String) -> (r: FixtureTikTokScraper)
        ensures
            r.path@ == path@,
    {
        FixtureTikTokScraper { path }
    }

    /// The name of a creator's file, where the path is a directory.
    pub fn file_name(normalized: &str) -> (r: String)
        ensures
            r@ == normalized@ + ".json"@,
    {
        text::concat(normalized, ".json")
    }
}

/// The creator that the text of a file describes.
pub fn snapshot_from_text(fallback_handle: &str, text: &str) -> (r: Result<
    CreatorSnapshot,
    SnapshotError,
>)
    ensures
        match (r, json_text::parsed(text@)) {
            (Ok(snapshot), Ok(json)) => snapshot_of(fallback_handle@, json) == Some(snapshot@)
                && models::dates_wf(snapshot@.videos),
            (Err(SnapshotError::NoUser), Ok(json)) => snapshot_of(fallback_handle@, json) is None,
            (Err(SnapshotError::InvalidJson(reason)), Err(error)) => reason@ == error,
            _ => false,
        },
{
    match json_text::parse_json(text) {
        Ok(json) => parse_creator_snapshot(fallback_handle, json),
        Err(reason) => Err(SnapshotError::InvalidJson(reason)),
    }
}

// ---------------------------------------------------------------------------
// Laws
// ---------------------------------------------------------------------------
proof fn lemma_handle_among(json: JsonView, keys: Seq<Seq<char>>)
    ensures
        match handle_among(json, keys) {
            Some(h) => handles::is_handle(h),
            None => true,
        },
    decreases keys.len(),
{
    if keys.len() > 0 {
        match reading::string_at(json, seq![keys[0]]) {
            Some(t) => {
                if handles::normalized_handle(t) is Some {
                    handles::law_normalized_handle_idempotent(t);
                }
            },
            None => {},
        }
        lemma_handle_among(json, keys.skip(1));
    }
}

proof fn lemma_following_handles(json: JsonView)
    ensures
        forall|h: Seq<char>|
            #[trigger] following_of(json).contains(h) ==> handles::is_handle(h),
{
    let all = account_items(json).map_values(|j: JsonView| account_handle(j));
    lists::lemma_present_members(all);
    order::lemma_sorted_set(listed_handles(json));
    assert forall|h: Seq<char>| #[trigger] following_of(json).contains(h) implies
        handles::is_handle(h) by {
        assert(listed_handles(json).contains(h));
        assert(all.contains(Some(h)));
        let i = choose|i: int| 0 <= i < all.len() && all[i] == Some(h);
        let item = account_items(json)[i];
        match item {
            JsonView::Text(t) => {
                handles::law_normalized_handle_idempotent(t);
            },
            _ => {
                lemma_handle_among(item, account_keys());
            },
        }
    }
}

proof fn lemma_handles_on(pages: Seq<JsonView>)
    ensures
        forall|h: Seq<char>| #[trigger] handles_on(pages).contains(h) ==> handles::is_handle(h),
    decreases pages.len(),
{
    if pages.len() > 0 {
        lemma_handles_on(pages.drop_last());
        lemma_following_handles(pages.last());
        let a = handles_on(pages.drop_last());
        let b = following_of(pages.last());
        assert forall|h: Seq<char>| #[trigger] handles_on(pages).contains(h) implies
            handles::is_handle(h) by {
            let k = choose|k: int| 0 <= k < (a + b).len() && (a + b)[k] == h;
            if k < a.len() {
                assert(a[k] == h);
                assert(a.contains(h));
            } else {
                assert(b[k - a.len()] == h);
                assert(b.contains(h));
            }
        }
    }
}

/// Whatever document describes a creator: the creator's handle and those of the
/// followed accounts are canonical, no followed account is listed twice, no
/// more posts are kept than the limit, and a country is a market of two letters
/// in upper case.
pub proof fn law_snapshot_is_canonical(fallback: Seq<char>, json: JsonView)
    requires
        handles::is_handle(fallback),
        snapshot_of(fallback, json) is Some,
    ensures
        handles::is_handle(snapshot_of(fallback, json)->0.handle),
        order::ascending(snapshot_of(fallback, json)->0.following),
        forall|h: Seq<char>|
            #[trigger] snapshot_of(fallback, json)->0.following.contains(h)
                ==> handles::is_handle(h),
        snapshot_of(fallback, json)->0.videos.len() <= posts::KEPT_POSTS,
        match snapshot_of(fallback, json)->0.country_code {
            Some(c) => c.len() == 2 && text::is_ascii_upper(c[0]) && text::is_ascii_upper(c[1]),
            None => true,
        },
{
    let snapshot = snapshot_of(fallback, json)->0;
    if is_social(json) {
        let profile = json::field(json, "profile"@)->0;
        let user = social_user(profile)->0;
        let named = reading::string_at(
            user,
            seq!["unique_id"@, "uniqueId"@, "username"@, "handle"@],
        );
        lemma_handle_or(named, fallback);
        lemma_country_opt(
            social_region(user, profile, json::field(json, "profile_region"@)),
        );
        let pages = social_pages(json);
        order::lemma_sorted_set(handles_on(pages));
        lemma_handles_on(pages);
        assert forall|h: Seq<char>| #[trigger] snapshot.following.contains(h) implies
            handles::is_handle(h) by {
            assert(handles_on(pages).contains(h));
        }
        posts::law_kept_posts(posts::posts_of(json::field(json, "posts"@)->0));
    } else {
        let root = unwrapped(json);
        let user = plain_user(root);
        let named = reading::string_at(
            user,
            seq!["handle"@, "uniqueId"@, "unique_id"@, "username"@, "secUid"@, "nickname"@],
        );
        lemma_handle_or(named, fallback);
        lemma_country_opt(
            either(
                reading::string_at(user, region_keys()),
                reading::string_at(root, region_keys()),
            ),
        );
        order::lemma_sorted_set(listed_handles(root));
        lemma_following_handles(root);
        posts::law_kept_posts(posts::posts_of(root));
    }
}

proof fn lemma_handle_or(named: Option<Seq<char>>, fallback: Seq<char>)
    requires
        handles::is_handle(fallback),
    ensures
        handles::is_handle(handle_or(named, fallback)),
{
    if let Some(t) = named {
        if handles::normalized_handle(t) is Some {
            handles::law_normalized_handle_idempotent(t);
        }
    }
}

proof fn lemma_country_opt(region: Option<Seq<char>>)
    ensures
        match country_opt(region) {
            Some(c) => c.len() == 2 && text::is_ascii_upper(c[0]) && text::is_ascii_upper(c[1]),
            None => true,
        },
{
    if let Some(r) = region {
        if country(r) is Some {
            law_country_idempotent(r);
        }
    }
}

} // verus!
