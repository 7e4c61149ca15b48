//! What a post holds of the document that describes it.

use vstd::prelude::*;
use crate::handles;
use crate::json;
use crate::json::{Json, JsonView};
use crate::lists;
use crate::models;
use crate::models::{PostView, TiktokPost, TiktokPostKind};
use crate::order;
use crate::ranking;
use crate::reading;
use crate::reading_laws;
use crate::search;
use crate::services::posts;
use crate::text;

verus! {

// ---------------------------------------------------------------------------
// Values of a post
// ---------------------------------------------------------------------------
/// The caption of a post is the first text among the fields `caption`, `desc`,
/// `description` and `text` of its document, and there is none only where none of
/// the four is a text.
pub proof fn law_caption_is_the_first_text(value: Json, post: TiktokPost)
    requires
        posts::post_of(value@) == Some(post@),
    ensures
        reading_laws::is_first_text(
            models::opt_text(post.caption),
            value@,
            seq!["caption"@, "desc"@, "description"@, "text"@],
        ),
        reading_laws::text_in(json::at_path(value@, "caption"@)) is Some ==> models::opt_text(
            post.caption,
        ) == reading_laws::text_in(json::at_path(value@, "caption"@)),
        reading_laws::text_in(json::at_path(value@, "caption"@)) is None
            && reading_laws::text_in(json::at_path(value@, "desc"@)) is Some ==> models::opt_text(
            post.caption,
        ) == reading_laws::text_in(json::at_path(value@, "desc"@)),
{
    let places = seq!["caption"@, "desc"@, "description"@, "text"@];
    reading_laws::law_first_place_counts(value@, places);
    assert(post@.caption == reading::string_at(value@, places));
    let found = |p: Seq<char>| reading_laws::text_in(json::at_path(value@, p));
    assert(places[0] == "caption"@ && places[1] == "desc"@ && places.len() == 4);
    if found(places[0]) is Some {
        if post@.caption is Some {
            let i = choose|i: int|
                0 <= i < places.len() && found(#[trigger] places[i]) == post@.caption && forall|k: int|
                    0 <= k < i ==> found(#[trigger] places[k]) is None;
            if i > 0 {
                assert(found(places[0]) is None);
            }
        }
    } else if found(places[1]) is Some {
        if post@.caption is Some {
            let i = choose|i: int|
                0 <= i < places.len() && found(#[trigger] places[i]) == post@.caption && forall|k: int|
                    0 <= k < i ==> found(#[trigger] places[k]) is None;
            if i > 1 {
                assert(found(places[1]) is None);
            }
        }
    }
}

/// The number and the time of a post are read from the places at which the services
/// put them, and the document itself is kept.
pub proof fn law_number_and_time_come_from_their_places(value: Json, post: TiktokPost)
    requires
        posts::post_of(value@) == Some(post@),
    ensures
        models::opt_text(post.id) == reading::string_at(
            value@,
            seq!["id"@, "aweme_id"@, "awemeId"@, "video.id"@],
        ),
        post.published_at == reading::time_at(
            value@,
            seq![
                "published_at"@,
                "publishedAt"@,
                "created_at"@,
                "createdAt"@,
                "create_time"@,
                "createTime"@,
            ],
        ),
        models::opt_text(post.source_url) == Some(post.url@),
        post.raw@ == value@,
{
    assert(post@.raw == value@);
}

/// The views of a post are read from the places at which the services put them, and
/// are none where they are not given.
pub proof fn law_views_come_from_their_places(value: Json, post: TiktokPost)
    requires
        posts::post_of(value@) == Some(post@),
    ensures
        post.views == match reading::count_at(
            value@,
            seq![
                "views"@,
                "view_count"@,
                "viewCount"@,
                "play_count"@,
                "playCount"@,
                "stats.playCount"@,
                "stats.views"@,
                "statistics.play_count"@,
                "statistics.playCount"@,
            ],
        ) {
            Some(n) => n,
            None => 0,
        },
{
}

/// A post is pinned only where its document says so, at the first of the places at
/// which it says something.
pub proof fn law_pinned_posts_say_so(value: Json, post: TiktokPost)
    requires
        posts::post_of(value@) == Some(post@),
    ensures
        post.is_pinned <==> reading::bool_at(
            value@,
            seq![
                "isPinnedItem"@,
                "isPinned"@,
                "is_pinned"@,
                "pinned"@,
                "is_top"@,
                "isTop"@,
                "item_control.isPinned"@,
            ],
        ) == Some(true),
{
}

/// The address that a document gives for its post.
pub open spec fn given_url(doc: JsonView) -> Option<Seq<char>> {
    reading::string_at(
        doc,
        seq![
            "url"@,
            "webVideoUrl"@,
            "web_video_url"@,
            "share_url"@,
            "shareUrl"@,
            "video_url"@,
            "videoUrl"@,
            "share_info.share_url"@,
            "shareInfo.shareUrl"@,
        ],
    )
}

/// The number of a post.
pub open spec fn given_id(doc: JsonView) -> Option<Seq<char>> {
    reading::string_at(doc, seq!["id"@, "aweme_id"@, "awemeId"@])
}

/// The handle of the author of a post.
pub open spec fn given_author(doc: JsonView) -> Option<Seq<char>> {
    match reading::string_at(
        doc,
        seq![
            "author.uniqueId"@,
            "author.unique_id"@,
            "author.username"@,
            "author.handle"@,
            "uniqueId"@,
        ],
    ) {
        Some(t) => handles::normalized_handle(t),
        None => None,
    }
}

/// A document shows images of its own.
pub open spec fn shows_images(doc: JsonView) -> bool {
    ||| posts::slide_images(doc).len() > 0
    ||| json::field(doc, "imagePost"@) is Some
    ||| json::field(doc, "image_post"@) is Some
}

/// A document describes a post exactly if it gives its address, or its number and
/// its author. The address is the one that is given; otherwise it is that of the
/// author's post with the number, a photo post where the document shows images.
pub proof fn law_post_has_an_address(value: Json)
    ensures
        posts::post_of(value@) is Some <==> given_url(value@) is Some || given_id(value@) is Some
            && given_author(value@) is Some,
        posts::post_of(value@) is Some ==> {
            let url = posts::post_of(value@)->0.url;
            &&& given_url(value@) is Some ==> Some(url) == given_url(value@)
            &&& given_url(value@) is None && shows_images(value@) ==> url
                == "https://www.tiktok.com/@"@ + given_author(value@)->0 + "/photo/"@ + given_id(
                value@,
            )->0
            &&& given_url(value@) is None && !shows_images(value@) ==> url
                == "https://www.tiktok.com/@"@ + given_author(value@)->0 + "/video/"@ + given_id(
                value@,
            )->0
        },
{
}

/// A post is a photo post if its document shows images, if what the document calls
/// it speaks of a photo, a slideshow or an image, or if its address is that of a
/// photo post; otherwise it is a video.
pub proof fn law_kind_of_a_post(value: Json, post: TiktokPost)
    requires
        posts::post_of(value@) == Some(post@),
    ensures
        ({
            let called = match reading::string_at(
                value@,
                seq![
                    "kind"@,
                    "type"@,
                    "media_type"@,
                    "mediaType"@,
                    "aweme_type"@,
                    "awemeType"@,
                ],
            ) {
                Some(t) => text::lower(t),
                None => Seq::empty(),
            };
            post.kind == TiktokPostKind::Photo <==> {
                ||| shows_images(value@)
                ||| search::contains(called, "photo"@)
                ||| search::contains(called, "slideshow"@)
                ||| search::contains(called, "image"@)
                ||| search::contains(text::lower(post.url@), "/photo/"@)
            }
        }),
{
    let hint = reading::string_at(value@, posts::kind_keys());
    let called = match hint {
        Some(t) => text::lower(t),
        None => Seq::empty(),
    };
    let words = seq!["photo"@, "slideshow"@, "image"@];
    assert(words[0] == "photo"@ && words[1] == "slideshow"@ && words[2] == "image"@);
    assert(words.len() == 3);
    if search::contains_any(called, words) {
        let k = choose|k: int| 0 <= k < words.len() && search::contains(called, #[trigger] words[k]);
        assert(k == 0 || k == 1 || k == 2);
    }
}

// ---------------------------------------------------------------------------
// Images of a post
// ---------------------------------------------------------------------------
/// One of the items is the text.
pub open spec fn lists_text(items: Option<Seq<JsonView>>, u: Seq<char>) -> bool {
    items is Some && items->0.contains(JsonView::Text(u))
}

proof fn lemma_texts_in(items: Seq<JsonView>, u: Seq<char>)
    ensures
        posts::texts_in(items).contains(u) <==> items.contains(JsonView::Text(u)),
{
    let all = items.map_values(|j: JsonView| json::as_text(j));
    lists::lemma_present_members(all);
    if posts::texts_in(items).contains(u) {
        assert(all.contains(Some(u)));
        let i = choose|i: int| 0 <= i < all.len() && all[i] == Some(u);
        assert(items[i] == JsonView::Text(u));
    }
    if items.contains(JsonView::Text(u)) {
        let i = choose|i: int| 0 <= i < items.len() && items[i] == JsonView::Text(u);
        assert(all[i] == Some(u));
        assert(all.contains(Some(u)));
    }
}

proof fn lemma_in_sum<A>(a: Seq<A>, b: Seq<A>, x: A)
    ensures
        (a + b).contains(x) <==> a.contains(x) || b.contains(x),
{
    let s = a + b;
    if s.contains(x) {
        let k = choose|k: int| 0 <= k < s.len() && s[k] == x;
        if k < a.len() {
            assert(a[k] == x);
        } else {
            assert(b[k - a.len()] == x);
        }
    }
    if a.contains(x) {
        let k = choose|k: int| 0 <= k < a.len() && a[k] == x;
        assert(s[k] == x);
    }
    if b.contains(x) {
        let k = choose|k: int| 0 <= k < b.len() && b[k] == x;
        assert(s[a.len() + k] == x);
    }
}

/// A text holds itself as an address, a list what its items hold, and an object
/// the texts in its fields `url_list` and `urlList`; other documents hold none.
pub proof fn law_addresses_in_a_document(doc: JsonView, u: Seq<char>)
    ensures
        match doc {
            JsonView::Text(t) => posts::urls_in(doc).contains(u) <==> u == t,
            JsonView::List(items) => posts::urls_in(doc).contains(u) <==> exists|i: int|
                0 <= i < items.len() && posts::urls_in(#[trigger] items[i]).contains(u),
            JsonView::Object(_) => posts::urls_in(doc).contains(u) <==> lists_text(
                json::list_field(doc, "url_list"@),
                u,
            ) || lists_text(json::list_field(doc, "urlList"@), u),
            _ => !posts::urls_in(doc).contains(u),
        },
{
    match doc {
        JsonView::Text(t) => {
            assert(seq![t][0] == t);
        },
        JsonView::List(items) => {
            lemma_urls_in_all(items, u);
        },
        JsonView::Object(_) => {
            let a = posts::texts_at(doc, "url_list"@);
            let b = posts::texts_at(doc, "urlList"@);
            lemma_in_sum(a, b, u);
            if let Some(items) = json::list_field(doc, "url_list"@) {
                lemma_texts_in(items, u);
            }
            if let Some(items) = json::list_field(doc, "urlList"@) {
                lemma_texts_in(items, u);
            }
        },
        _ => {},
    }
}

proof fn lemma_urls_in_all(items: Seq<JsonView>, u: Seq<char>)
    ensures
        posts::urls_in_all(items).contains(u) <==> exists|i: int|
            0 <= i < items.len() && posts::urls_in(#[trigger] items[i]).contains(u),
    decreases items.len(),
{
    if items.len() > 0 {
        let rest = items.drop_last();
        lemma_urls_in_all(rest, u);
        lemma_in_sum(posts::urls_in_all(rest), posts::urls_in(items.last()), u);
        if posts::urls_in_all(rest).contains(u) {
            let i = choose|i: int|
                0 <= i < rest.len() && posts::urls_in(#[trigger] rest[i]).contains(u);
            assert(items[i] == rest[i]);
        }
        if posts::urls_in(items.last()).contains(u) {
            assert(items[items.len() - 1] == items.last());
        }
        if exists|i: int|
            0 <= i < items.len() && posts::urls_in(#[trigger] items[i]).contains(u) {
            let i = choose|i: int|
                0 <= i < items.len() && posts::urls_in(#[trigger] items[i]).contains(u);
            if i < rest.len() {
                assert(rest[i] == items[i]);
            }
        }
    }
}

/// What several lists hold together is what one of them holds.
pub proof fn lemma_gathered(places: Seq<Option<Seq<JsonView>>>, j: JsonView)
    ensures
        posts::gathered(places).contains(j) <==> exists|k: int|
            0 <= k < places.len() && (#[trigger] places[k]) is Some && places[k]->0.contains(j),
    decreases places.len(),
{
    if places.len() > 0 {
        let rest = places.drop_last();
        lemma_gathered(rest, j);
        let here = match places.last() {
            Some(items) => items,
            None => Seq::empty(),
        };
        lemma_in_sum(posts::gathered(rest), here, j);
        if posts::gathered(rest).contains(j) {
            let k = choose|k: int|
                0 <= k < rest.len() && (#[trigger] rest[k]) is Some && rest[k]->0.contains(j);
            assert(places[k] == rest[k]);
        }
        if here.contains(j) {
            assert(places[places.len() - 1] == places.last());
        }
        if exists|k: int|
            0 <= k < places.len() && (#[trigger] places[k]) is Some && places[k]->0.contains(j) {
            let k = choose|k: int|
                0 <= k < places.len() && (#[trigger] places[k]) is Some && places[k]->0.contains(j);
            if k < rest.len() {
                assert(rest[k] == places[k]);
            }
        }
    }
}

/// One of the lists holds the document.
pub open spec fn holds(items: Option<Seq<JsonView>>, j: JsonView) -> bool {
    items is Some && items->0.contains(j)
}

/// The document is one of the images of a slideshow.
pub open spec fn is_slide(doc: JsonView, j: JsonView) -> bool {
    ||| holds(json::list_field(doc, "slide_image_urls"@), j)
    ||| holds(json::list_field(doc, "slideImageUrls"@), j)
    ||| holds(json::list_field(doc, "images"@), j)
    ||| holds(posts::list_field2(doc, "image_post"@, "images"@), j)
    ||| holds(posts::list_field2(doc, "imagePost"@, "images"@), j)
}

/// The image of a slideshow gives the address: it is the address, or names it at
/// the first of the places for it, or holds it.
pub open spec fn slide_gives(j: JsonView, u: Seq<char>) -> bool {
    match j {
        JsonView::Text(t) => u == t,
        _ => posts::urls_in(j).contains(u) || reading::string_at(
            j,
            seq![
                "url"@,
                "image_url"@,
                "imageUrl"@,
                "display_image"@,
                "imageURL.url_list.0"@,
                "imageURL.urlList.0"@,
                "imageURL.urlList.1"@,
                "imageUrl.url_list.0"@,
                "imageUrl.urlList.0"@,
                "image_url.url_list.0"@,
            ],
        ) == Some(u),
    }
}

proof fn lemma_slide_gives(j: JsonView, u: Seq<char>)
    ensures
        posts::slide_urls(j).contains(u) <==> slide_gives(j, u),
{
    match j {
        JsonView::Text(t) => {
            assert(seq![t][0] == t);
        },
        _ => {
            let one = posts::one_or_none(reading::string_at(j, posts::slide_url_keys()));
            lemma_in_sum(one, posts::urls_in(j), u);
            if one.len() > 0 {
                assert(one[0] == reading::string_at(j, posts::slide_url_keys())->0);
            }
        },
    }
}

proof fn lemma_all_slide_urls(items: Seq<JsonView>, u: Seq<char>)
    ensures
        posts::all_slide_urls(items).contains(u) <==> exists|i: int|
            0 <= i < items.len() && slide_gives(#[trigger] items[i], u),
    decreases items.len(),
{
    if items.len() > 0 {
        let rest = items.drop_last();
        lemma_all_slide_urls(rest, u);
        lemma_slide_gives(items.last(), u);
        lemma_in_sum(posts::all_slide_urls(rest), posts::slide_urls(items.last()), u);
        if posts::all_slide_urls(rest).contains(u) {
            let i = choose|i: int| 0 <= i < rest.len() && slide_gives(#[trigger] rest[i], u);
            assert(items[i] == rest[i]);
        }
        if slide_gives(items.last(), u) {
            assert(items[items.len() - 1] == items.last());
        }
        if exists|i: int| 0 <= i < items.len() && slide_gives(#[trigger] items[i], u) {
            let i = choose|i: int| 0 <= i < items.len() && slide_gives(#[trigger] items[i], u);
            if i < rest.len() {
                assert(rest[i] == items[i]);
            }
        }
    }
}

/// The addresses of a slideshow are those that its images give, in ascending order
/// and each once.
pub proof fn law_slideshow_shows_its_images(doc: JsonView, u: Seq<char>)
    ensures
        posts::slide_images(doc).contains(u) <==> exists|j: JsonView| #[trigger]
            is_slide(doc, j) && slide_gives(j, u),
        order::ascending(posts::slide_images(doc)),
{
    let items = posts::slides(doc);
    let places = seq![
        json::list_field(doc, "slide_image_urls"@),
        json::list_field(doc, "slideImageUrls"@),
        json::list_field(doc, "images"@),
        posts::list_field2(doc, "image_post"@, "images"@),
        posts::list_field2(doc, "imagePost"@, "images"@),
    ];
    order::lemma_sorted_set(posts::all_slide_urls(items));
    lemma_all_slide_urls(items, u);
    if posts::slide_images(doc).contains(u) {
        let i = choose|i: int| 0 <= i < items.len() && slide_gives(#[trigger] items[i], u);
        let j = items[i];
        lemma_gathered(places, j);
        assert(items.contains(j));
        let k = choose|k: int|
            0 <= k < places.len() && (#[trigger] places[k]) is Some && places[k]->0.contains(j);
        assert(k == 0 || k == 1 || k == 2 || k == 3 || k == 4);
        assert(is_slide(doc, j));
    }
    if exists|j: JsonView| #[trigger] is_slide(doc, j) && slide_gives(j, u) {
        let j = choose|j: JsonView| #[trigger] is_slide(doc, j) && slide_gives(j, u);
        lemma_gathered(places, j);
        assert(places[0] == json::list_field(doc, "slide_image_urls"@));
        assert(places[1] == json::list_field(doc, "slideImageUrls"@));
        assert(places[2] == json::list_field(doc, "images"@));
        assert(places[3] == posts::list_field2(doc, "image_post"@, "images"@));
        assert(places[4] == posts::list_field2(doc, "imagePost"@, "images"@));
        assert(items.contains(j));
        let i = choose|i: int| 0 <= i < items.len() && items[i] == j;
        assert(slide_gives(items[i], u));
    }
}

/// The places at which a post shows its cover.
pub open spec fn cover_places() -> Seq<Seq<char>> {
    seq![
        "video.cover"@,
        "video.cover.url_list.0"@,
        "video.cover.urlList.0"@,
        "video.originCover"@,
        "video.origin_cover"@,
        "video.origin_cover.url_list.0"@,
        "video.dynamicCover"@,
        "video.dynamic_cover"@,
        "video.dynamic_cover.url_list.0"@,
        "cover"@,
        "originCover"@,
        "origin_cover"@,
        "dynamicCover"@,
        "dynamic_cover"@,
    ]
}

/// At the place there is the address, or a document that holds it.
pub open spec fn place_gives(doc: JsonView, place: Seq<char>, u: Seq<char>) -> bool {
    ||| reading_laws::text_in(json::at_path(doc, place)) == Some(u)
    ||| json::at_path(doc, place) is Some && posts::urls_in(
        json::at_path(doc, place)->0,
    ).contains(u)
}

proof fn lemma_place_gives(doc: JsonView, place: Seq<char>, u: Seq<char>)
    ensures
        posts::cover_urls(doc, place).contains(u) <==> place_gives(doc, place, u),
{
    let keys = seq![place];
    assert(keys[0] == place);
    assert(keys.skip(1) =~= Seq::<Seq<char>>::empty());
    reveal_with_fuel(reading::first_of, 2);
    let given = reading::string_at(doc, keys);
    assert(given == reading_laws::text_in(json::at_path(doc, place)));
    let one = posts::one_or_none(given);
    let held = match json::at_path(doc, place) {
        Some(j) => posts::urls_in(j),
        None => Seq::empty(),
    };
    lemma_in_sum(one, held, u);
    if one.len() > 0 {
        assert(one[0] == given->0);
    }
}

proof fn lemma_all_covers(doc: JsonView, places: Seq<Seq<char>>, u: Seq<char>)
    ensures
        posts::all_cover_urls(doc, places).contains(u) <==> exists|k: int|
            0 <= k < places.len() && place_gives(doc, #[trigger] places[k], u),
    decreases places.len(),
{
    if places.len() > 0 {
        let rest = places.drop_last();
        lemma_all_covers(doc, rest, u);
        lemma_place_gives(doc, places.last(), u);
        lemma_in_sum(
            posts::all_cover_urls(doc, rest),
            posts::cover_urls(doc, places.last()),
            u,
        );
        if posts::all_cover_urls(doc, rest).contains(u) {
            let k = choose|k: int| 0 <= k < rest.len() && place_gives(doc, #[trigger] rest[k], u);
            assert(places[k] == rest[k]);
        }
        if place_gives(doc, places.last(), u) {
            assert(places[places.len() - 1] == places.last());
        }
        if exists|k: int| 0 <= k < places.len() && place_gives(doc, #[trigger] places[k], u) {
            let k = choose|k: int|
                0 <= k < places.len() && place_gives(doc, #[trigger] places[k], u);
            if k < rest.len() {
                assert(rest[k] == places[k]);
            }
        }
    }
}

/// The images of a post are those of its slideshow, and those at the places for
/// covers, in ascending order and each once.
pub proof fn law_post_shows_its_images(value: Json, post: TiktokPost, u: Seq<char>)
    requires
        posts::post_of(value@) == Some(post@),
    ensures
        search::texts(post.slide_image_urls@) == posts::slide_images(value@),
        search::texts(post.visual_image_urls@).contains(u) <==> posts::slide_images(
            value@,
        ).contains(u) || exists|k: int|
            0 <= k < cover_places().len() && place_gives(value@, #[trigger] cover_places()[k], u),
        order::ascending(search::texts(post.visual_image_urls@)),
{
    let doc = value@;
    assert(post@.slide_image_urls == search::texts(post.slide_image_urls@));
    assert(post@.visual_image_urls == search::texts(post.visual_image_urls@));
    assert(posts::cover_keys() =~= cover_places());
    let covers = posts::all_cover_urls(doc, posts::cover_keys());
    lemma_all_covers(doc, cover_places(), u);
    lemma_in_sum(covers, posts::slide_images(doc), u);
    order::lemma_sorted_set(covers + posts::slide_images(doc));
    assert(posts::visual_images(doc).contains(u) <==> (covers + posts::slide_images(doc)).contains(
        u,
    ));
}

// ---------------------------------------------------------------------------
// All posts
// ---------------------------------------------------------------------------
/// The document stands where a reply lists posts.
pub open spec fn is_post_item(doc: JsonView, j: JsonView) -> bool {
    ||| holds(json::list_field(doc, "aweme_list"@), j)
    ||| holds(json::list_field(doc, "awemeList"@), j)
    ||| holds(json::list_field(doc, "videos"@), j)
    ||| holds(json::list_field(doc, "posts"@), j)
    ||| holds(json::list_field(doc, "items"@), j)
    ||| holds(json::list_field(doc, "itemList"@), j)
    ||| holds(posts::list_field2(doc, "creator"@, "videos"@), j)
    ||| holds(posts::list_field2(doc, "user"@, "videos"@), j)
}

/// The posts of a reply are those that the listed documents describe.
pub proof fn law_reply_lists_its_posts(doc: JsonView, p: PostView)
    ensures
        posts::posts_of(doc).contains(p) <==> exists|j: JsonView| #[trigger]
            is_post_item(doc, j) && posts::post_of(j) == Some(p),
{
    let places = seq![
        json::list_field(doc, "aweme_list"@),
        json::list_field(doc, "awemeList"@),
        json::list_field(doc, "videos"@),
        json::list_field(doc, "posts"@),
        json::list_field(doc, "items"@),
        json::list_field(doc, "itemList"@),
        posts::list_field2(doc, "creator"@, "videos"@),
        posts::list_field2(doc, "user"@, "videos"@),
    ];
    let items = posts::post_items(doc);
    let all = items.map_values(|j: JsonView| posts::post_of(j));
    lists::lemma_present_members(all);
    if posts::posts_of(doc).contains(p) {
        assert(all.contains(Some(p)));
        let i = choose|i: int| 0 <= i < all.len() && all[i] == Some(p);
        let j = items[i];
        assert(items.contains(j));
        lemma_gathered(places, j);
        let k = choose|k: int|
            0 <= k < places.len() && (#[trigger] places[k]) is Some && places[k]->0.contains(j);
        assert(k == 0 || k == 1 || k == 2 || k == 3 || k == 4 || k == 5 || k == 6 || k == 7);
        assert(is_post_item(doc, j));
    }
    if exists|j: JsonView| #[trigger] is_post_item(doc, j) && posts::post_of(j) == Some(p) {
        let j = choose|j: JsonView| #[trigger]
            is_post_item(doc, j) && posts::post_of(j) == Some(p);
        lemma_gathered(places, j);
        assert(places[0] == json::list_field(doc, "aweme_list"@));
        assert(places[1] == json::list_field(doc, "awemeList"@));
        assert(places[2] == json::list_field(doc, "videos"@));
        assert(places[3] == json::list_field(doc, "posts"@));
        assert(places[4] == json::list_field(doc, "items"@));
        assert(places[5] == json::list_field(doc, "itemList"@));
        assert(places[6] == posts::list_field2(doc, "creator"@, "videos"@));
        assert(places[7] == posts::list_field2(doc, "user"@, "videos"@));
        assert(items.contains(j));
        let i = choose|i: int| 0 <= i < items.len() && items[i] == j;
        assert(all[i] == Some(p));
        assert(all.contains(Some(p)));
    }
}

/// A post that is not kept is newer than none that is, and thirty are kept then.
pub proof fn law_newest_posts_are_kept(given: Seq<PostView>, i: int)
    requires
        0 <= i < given.len(),
        !posts::kept_posts(given).contains(given[i]),
    ensures
        posts::kept_posts(given).len() == 30,
        forall|k: int|
            0 <= k < posts::kept_posts(given).len() ==> !posts::newer(
                given[i],
                #[trigger] posts::kept_posts(given)[k],
            ),
{
    let keys = given.map_values(|p: PostView| posts::age_key(p));
    let down = seq![true, true];
    ranking::lemma_ranking(keys, down);
    ranking::lemma_ranking_len(keys, down);
    let places = ranking::ranking(keys, down);
    let sorted = posts::newest_first(given);
    let kept = posts::kept_posts(given);
    assert(places.contains(i));
    let at = choose|at: int| 0 <= at < places.len() && places[at] == i;
    assert(sorted[at] == given[i]);
    if sorted.len() <= 30 || at < 30 {
        assert(kept[at] == sorted[at]);
    }
    assert forall|k: int| 0 <= k < kept.len() implies !posts::newer(
        given[i],
        #[trigger] kept[k],
    ) by {
        assert(kept[k] == sorted[k]);
        assert(places.contains(places[k]));
        assert(ranking::row_order(keys, down)(places[k], places[at]));
        let a = given[places[k]];
        let b = given[i];
        assert(keys[places[k]] == posts::age_key(a));
        assert(keys[i] == posts::age_key(b));
        reveal_with_fuel(ranking::key_before, 3);
        if posts::newer(b, a) {
            assert(ranking::key_before(posts::age_key(b), posts::age_key(a), down, 0));
            assert(!ranking::key_before(posts::age_key(a), posts::age_key(b), down, 0));
        }
    }
}

} // verus!
