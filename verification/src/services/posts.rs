//! Posts, as the profile services describe them.

use vstd::prelude::*;
use crate::handles;
use crate::json;
use crate::json::{Json, JsonView};
use crate::lists;
use crate::models;
use crate::models::{PostView, TiktokPost, TiktokPostKind};
use crate::order;
use crate::ranking;
use crate::ranking::{SortValue, SortView};
use crate::reading;
use crate::search;
use crate::text;

verus! {

// ---------------------------------------------------------------------------
// Lists at several places
// ---------------------------------------------------------------------------
/// The items of the lists that are there, one list after the other.
pub open spec fn gathered(places: Seq<Option<Seq<JsonView>>>) -> Seq<JsonView>
    decreases places.len(),
{
    if places.len() == 0 {
        Seq::empty()
    } else {
        gathered(places.drop_last()) + match places.last() {
            Some(items) => items,
            None => Seq::empty(),
        }
    }
}

/// The items of the field `inner` of the field `outer`, where it is a list.
pub open spec fn list_field2(
    json: JsonView,
    outer: Seq<char>,
    inner: Seq<char>,
) -> Option<Seq<JsonView>> {
    match json::field2(json, outer, inner) {
        Some(j) => json::as_list(j),
        None => None,
    }
}

/// The views of a list of borrowed documents.
pub open spec fn ref_views(items: Seq<&Json>) -> Seq<JsonView> {
    items.map_values(|j: &Json| j@)
}

/// The views of the lists at several places.
pub open spec fn place_views(places: Seq<Option<&Vec<Json>>>) -> Seq<Option<Seq<JsonView>>> {
    places.map_values(
        |p: Option<&Vec<Json>>|
            match p {
                Some(items) => Some(json::views(items@)),
                None => None,
            },
    )
}

/// The items of the field `inner` of the field `outer`.
pub fn list_in<'a>(value: &'a Json, outer: &str, inner: &str) -> (r: Option<&'a Vec<Json>>)
    ensures
        match r {
            Some(items) => list_field2(value@, outer@, inner@) == Some(json::views(items@)),
            None => list_field2(value@, outer@, inner@) is None,
        },
{
    match value.get2(outer, inner) {
        Some(j) => j.items(),
        None => None,
    }
}

/// The items of the lists that are there, one list after the other.
pub fn gather<'a>(places: &Vec<Option<&'a Vec<Json>>>) -> (r: Vec<&'a Json>)
    ensures
        ref_views(r@) == gathered(place_views(places@)),
{
    let ghost all = place_views(places@);
    let mut r: Vec<&'a Json> = Vec::new();
    let mut i: usize = 0;
    assert(ref_views(r@) =~= gathered(all.take(0)));
    while i < places.len()
        invariant
            i <= places@.len(),
            all == place_views(places@),
            ref_views(r@) == gathered(all.take(i as int)),
        decreases places@.len() - i,
    {
        proof {
            assert(all.take(i + 1).drop_last() =~= all.take(i as int));
            assert(all.take(i + 1).last() == all[i as int]);
        }
        match places[i] {
            Some(items) => {
                let ghost start = ref_views(r@);
                let ghost here = json::views(items@);
                let mut k: usize = 0;
                assert(here.take(0) =~= Seq::<JsonView>::empty());
                assert(start + here.take(0) =~= start);
                while k < items.len()
                    invariant
                        k <= items@.len(),
                        here == json::views(items@),
                        ref_views(r@) == start + here.take(k as int),
                    decreases items@.len() - k,
                {
                    let ghost before = r@;
                    r.push(&items[k]);
                    k = k + 1;
                    proof {
                        assert(ref_views(r@) =~= ref_views(before).push(here[k - 1]));
                        assert(here.take(k as int) =~= here.take(k - 1).push(here[k - 1]));
                        assert(start + here.take(k as int) =~= (start + here.take(k - 1)).push(
                            here[k - 1],
                        ));
                    }
                }
                assert(here.take(k as int) =~= here);
            },
            None => {
                assert(ref_views(r@) + Seq::<JsonView>::empty() =~= ref_views(r@));
            },
        }
        i = i + 1;
    }
    assert(all.take(i as int) =~= all);
    r
}

// ---------------------------------------------------------------------------
// Addresses of images
// ---------------------------------------------------------------------------
/// The texts among the items of a list.
pub open spec fn texts_in(items: Seq<JsonView>) -> Seq<Seq<char>> {
    lists::present(items.map_values(|j: JsonView| json::as_text(j)))
}

/// The texts in the list at the field `key`; none where there is no list.
pub open spec fn texts_at(json: JsonView, key: Seq<char>) -> Seq<Seq<char>> {
    match json::list_field(json, key) {
        Some(items) => texts_in(items),
        None => Seq::empty(),
    }
}

/// The addresses that a document holds: a text is one, a list holds those of
/// its items, an object those in its list of addresses.
pub open spec fn urls_in(json: JsonView) -> Seq<Seq<char>>
    decreases json,
{
    match json {
        JsonView::Text(url) => seq![url],
        JsonView::List(items) => urls_in_all(items),
        JsonView::Object(_) => texts_at(json, "url_list"@) + texts_at(json, "urlList"@),
        _ => Seq::empty(),
    }
}

/// The addresses that the documents of a list hold.
pub open spec fn urls_in_all(items: Seq<JsonView>) -> Seq<Seq<char>>
    decreases items,
{
    if items.len() == 0 {
        Seq::empty()
    } else {
        urls_in_all(items.drop_last()) + urls_in(items.last())
    }
}

/// Appends the texts among the items of a list.
fn add_texts(items: &Vec<Json>, urls: &mut Vec<String>)
    ensures
        search::texts(final(urls)@) == search::texts(old(urls)@) + texts_in(json::views(items@)),
{
    let ghost start = search::texts(urls@);
    let ghost all = json::views(items@).map_values(|j: JsonView| json::as_text(j));
    let mut i: usize = 0;
    assert(start + lists::present(all.take(0)) =~= start);
    while i < items.len()
        invariant
            i <= items@.len(),
            all == json::views(items@).map_values(|j: JsonView| json::as_text(j)),
            search::texts(urls@) == start + lists::present(all.take(i as int)),
        decreases items@.len() - i,
    {
        let ghost before = urls@;
        proof {
            assert(all.take(i + 1) =~= all.take(i as int).push(all[i as int]));
            lists::lemma_present_push(all.take(i as int), all[i as int]);
            assert(all[i as int] == json::as_text(items@[i as int]@));
        }
        if let Json::Text(t) = &items[i] {
            urls.push(t.clone());
            proof {
                assert(search::texts(urls@) =~= search::texts(before).push(t@));
                assert(start + lists::present(all.take(i + 1)) =~= (start + lists::present(
                    all.take(i as int),
                )).push(t@));
            }
        }
        i = i + 1;
    }
    assert(all.take(i as int) =~= all);
}

/// Appends the texts in the list at the field `key`.
fn add_texts_at(value: &Json, key: &str, urls: &mut Vec<String>)
    ensures
        search::texts(final(urls)@) == search::texts(old(urls)@) + texts_at(value@, key@),
{
    match value.get_list(key) {
        Some(items) => add_texts(items, urls),
        None => {
            assert(search::texts(urls@) + Seq::<Seq<char>>::empty() =~= search::texts(urls@));
        },
    }
}

/// Appends the addresses that a document holds.
pub fn collect_urls_from_value(value: &Json, urls: &mut Vec<String>)
    ensures
        search::texts(final(urls)@) == search::texts(old(urls)@) + urls_in(value@),
    decreases value,
{
    broadcast use json::lemma_list_view;

    let ghost start = search::texts(urls@);
    match value {
        Json::Text(url) => {
            urls.push(url.clone());
            assert(search::texts(urls@) =~= start + seq![url@]);
        },
        Json::List(items) => {
            let ghost all = json::views(items@);
            let mut i: usize = 0;
            assert(start + urls_in_all(all.take(0)) =~= start);
            while i < items.len()
                invariant
                    i <= items@.len(),
                    *value == Json::List(*items),
                    all == json::views(items@),
                    search::texts(urls@) == start + urls_in_all(all.take(i as int)),
                decreases items@.len() - i,
            {
                proof {
                    assert(decreases_to!(*value => value->List_0@[i as int]));
                    assert(all.take(i + 1).drop_last() =~= all.take(i as int));
                    assert(all.take(i + 1).last() == items@[i as int]@);
                }
                collect_urls_from_value(&items[i], urls);
                proof {
                    assert(start + urls_in_all(all.take(i + 1)) =~= start + urls_in_all(
                        all.take(i as int),
                    ) + urls_in(items@[i as int]@));
                }
                i = i + 1;
            }
            assert(all.take(i as int) =~= all);
        },
        Json::Object(_) => {
            add_texts_at(value, "url_list", urls);
            add_texts_at(value, "urlList", urls);
            assert(search::texts(urls@) =~= start + urls_in(value@));
        },
        _ => {
            assert(search::texts(urls@) =~= start + urls_in(value@));
        },
    }
}

/// The paths at which an image of a slideshow gives its address.
pub open spec fn slide_url_keys() -> Seq<Seq<char>> {
    seq![
        "url"@,
        "image_url"@,
        "imageUrl"@,
        "display_image"@,
        "imageURL.url_list.0"@,
        "imageURL.urlList.0"@,
        "imageURL.urlList.1"@,
        "imageUrl.url_list.0"@,
        "imageUrl.urlList.0"@,
        "image_url.url_list.0"@,
    ]
}

/// The text that is there, as a list.
pub open spec fn one_or_none(t: Option<Seq<char>>) -> Seq<Seq<char>> {
    match t {
        Some(t) => seq![t],
        None => Seq::empty(),
    }
}

/// The addresses of one image of a slideshow.
pub open spec fn slide_urls(item: JsonView) -> Seq<Seq<char>> {
    match item {
        JsonView::Text(url) => seq![url],
        _ => one_or_none(reading::string_at(item, slide_url_keys())) + urls_in(item),
    }
}

/// The addresses of all images of a slideshow.
pub open spec fn all_slide_urls(items: Seq<JsonView>) -> Seq<Seq<char>>
    decreases items.len(),
{
    if items.len() == 0 {
        Seq::empty()
    } else {
        all_slide_urls(items.drop_last()) + slide_urls(items.last())
    }
}

/// The images of a slideshow.
pub open spec fn slides(json: JsonView) -> Seq<JsonView> {
    gathered(
        seq![
            json::list_field(json, "slide_image_urls"@),
            json::list_field(json, "slideImageUrls"@),
            json::list_field(json, "images"@),
            list_field2(json, "image_post"@, "images"@),
            list_field2(json, "imagePost"@, "images"@),
        ],
    )
}

/// The addresses of the images of a slideshow, in ascending order, each once.
pub open spec fn slide_images(json: JsonView) -> Seq<Seq<char>> {
    order::sorted_set(all_slide_urls(slides(json)))
}

fn add_slide_urls(item: &Json, urls: &mut Vec<String>)
    ensures
        search::texts(final(urls)@) == search::texts(old(urls)@) + slide_urls(item@),
{
    let ghost start = search::texts(urls@);
    if let Json::Text(url) = item {
        urls.push(url.clone());
        assert(search::texts(urls@) =~= start + seq![url@]);
        return;
    }
    let keys: Vec<&str> = vec![
        "url",
        "image_url",
        "imageUrl",
        "display_image",
        "imageURL.url_list.0",
        "imageURL.urlList.0",
        "imageURL.urlList.1",
        "imageUrl.url_list.0",
        "imageUrl.urlList.0",
        "image_url.url_list.0",
    ];
    assert(reading::names(keys@) =~= slide_url_keys());
    if let Some(url) = reading::first_string(item, keys.as_slice()) {
        urls.push(url);
        assert(search::texts(urls@) =~= start + seq![url@]);
    } else {
        assert(start + Seq::<Seq<char>>::empty() =~= start);
    }
    collect_urls_from_value(item, urls);
    assert(search::texts(urls@) =~= start + slide_urls(item@));
}

/// The addresses of the images of a slideshow.
pub fn parse_slide_images(value: &Json) -> (r: Vec<String>)
    ensures
        search::texts(r@) == slide_images(value@),
{
    let places: Vec<Option<&Vec<Json>>> = vec![
        value.get_list("slide_image_urls"),
        value.get_list("slideImageUrls"),
        value.get_list("images"),
        list_in(value, "image_post", "images"),
        list_in(value, "imagePost", "images"),
    ];
    let items: Vec<&Json> = gather(&places);
    proof {
        assert(place_views(places@) =~= seq![
            json::list_field(value@, "slide_image_urls"@),
            json::list_field(value@, "slideImageUrls"@),
            json::list_field(value@, "images"@),
            list_field2(value@, "image_post"@, "images"@),
            list_field2(value@, "imagePost"@, "images"@),
        ]);
    }
    let ghost all = slides(value@);
    let mut urls: Vec<String> = Vec::new();
    let mut i: usize = 0;
    assert(search::texts(urls@) =~= all_slide_urls(all.take(0)));
    while i < items.len()
        invariant
            i <= items@.len(),
            all == ref_views(items@),
            search::texts(urls@) == all_slide_urls(all.take(i as int)),
        decreases items@.len() - i,
    {
        proof {
            assert(all.take(i + 1).drop_last() =~= all.take(i as int));
            assert(all.take(i + 1).last() == items@[i as int]@);
        }
        add_slide_urls(items[i], &mut urls);
        i = i + 1;
    }
    assert(all.take(i as int) =~= all);
    order::sort_texts(&urls)
}

/// The paths at which a post shows cover images.
pub open spec fn cover_keys() -> Seq<Seq<char>> {
    seq![
        "video.cover"@,
        "video.cover.url_list.0"@,
        "video.cover.urlList.0"@,
        "video.originCover"@,
        "video.origin_cover"@,
        "video.origin_cover.url_list.0"@,
        "video.dynamicCover"@,
        "video.dynamic_cover"@,
        "video.dynamic_cover.url_list.0"@,
        "cover"@,
        "originCover"@,
        "origin_cover"@,
        "dynamicCover"@,
        "dynamic_cover"@,
    ]
}

/// The addresses at the path `key`.
pub open spec fn cover_urls(json: JsonView, key: Seq<char>) -> Seq<Seq<char>> {
    one_or_none(reading::string_at(json, seq![key])) + match json::at_path(json, key) {
        Some(j) => urls_in(j),
        None => Seq::empty(),
    }
}

/// The addresses at all the paths `keys`.
pub open spec fn all_cover_urls(json: JsonView, keys: Seq<Seq<char>>) -> Seq<Seq<char>>
    decreases keys.len(),
{
    if keys.len() == 0 {
        Seq::empty()
    } else {
        all_cover_urls(json, keys.drop_last()) + cover_urls(json, keys.last())
    }
}

/// The addresses of all images that a post shows, in ascending order, each
/// once.
pub open spec fn visual_images(json: JsonView) -> Seq<Seq<char>> {
    order::sorted_set(all_cover_urls(json, cover_keys()) + slide_images(json))
}

fn add_cover_urls(value: &Json, key: &str, urls: &mut Vec<String>)
    ensures
        search::texts(final(urls)@) == search::texts(old(urls)@) + cover_urls(value@, key@),
{
    let ghost start = search::texts(urls@);
    let keys: Vec<&str> = vec![key];
    assert(reading::names(keys@) =~= seq![key@]);
    if let Some(url) = reading::first_string(value, keys.as_slice()) {
        urls.push(url);
        assert(search::texts(urls@) =~= start + seq![url@]);
    } else {
        assert(start + Seq::<Seq<char>>::empty() =~= start);
    }
    if let Some(j) = json::get_path(value, key) {
        collect_urls_from_value(j, urls);
    }
    assert(search::texts(urls@) =~= start + cover_urls(value@, key@));
}

/// The addresses of all images that a post shows.
pub fn parse_visual_images(value: &Json) -> (r: Vec<String>)
    ensures
        search::texts(r@) == visual_images(value@),
{
    let keys: Vec<&str> = vec![
        "video.cover",
        "video.cover.url_list.0",
        "video.cover.urlList.0",
        "video.originCover",
        "video.origin_cover",
        "video.origin_cover.url_list.0",
        "video.dynamicCover",
        "video.dynamic_cover",
        "video.dynamic_cover.url_list.0",
        "cover",
        "originCover",
        "origin_cover",
        "dynamicCover",
        "dynamic_cover",
    ];
    let ghost all = cover_keys();
    assert(reading::names(keys@) =~= all);
    let mut urls: Vec<String> = Vec::new();
    let mut i: usize = 0;
    assert(search::texts(urls@) =~= all_cover_urls(value@, all.take(0)));
    while i < keys.len()
        invariant
            i <= keys@.len(),
            all == reading::names(keys@),
            search::texts(urls@) == all_cover_urls(value@, all.take(i as int)),
        decreases keys@.len() - i,
    {
        proof {
            assert(all.take(i + 1).drop_last() =~= all.take(i as int));
            assert(all.take(i + 1).last() == keys@[i as int]@);
        }
        add_cover_urls(value, keys[i], &mut urls);
        i = i + 1;
    }
    assert(all.take(i as int) =~= all);
    let ghost start = search::texts(urls@);
    let mut slide_urls: Vec<String> = parse_slide_images(value);
    let ghost added = search::texts(slide_urls@);
    urls.append(&mut slide_urls);
    assert(search::texts(urls@) =~= start + added);
    order::sort_texts(&urls)
}

// ---------------------------------------------------------------------------
// One post
// ---------------------------------------------------------------------------
/// The address of a post, put together from its author and its number.
pub open spec fn built_url(json: JsonView, kind: TiktokPostKind) -> Option<Seq<char>> {
    let id = reading::string_at(json, seq!["id"@, "aweme_id"@, "awemeId"@]);
    let author = reading::string_at(
        json,
        seq![
            "author.uniqueId"@,
            "author.unique_id"@,
            "author.username"@,
            "author.handle"@,
            "uniqueId"@,
        ],
    );
    match (id, author) {
        (Some(id), Some(author)) => match handles::normalized_handle(author) {
            Some(handle) => Some(
                "https://www.tiktok.com/@"@ + handle + match kind {
                    TiktokPostKind::Video => "/video/"@,
                    TiktokPostKind::Photo => "/photo/"@,
                } + id,
            ),
            None => None,
        },
        _ => None,
    }
}

/// The address of a post, put together from its author and its number.
pub fn build_tiktok_post_url(value: &Json, kind: TiktokPostKind) -> (r: Option<String>)
    ensures
        models::opt_text(r) == built_url(value@, kind),
{
    let id_keys: Vec<&str> = vec!["id", "aweme_id", "awemeId"];
    assert(reading::names(id_keys@) =~= seq!["id"@, "aweme_id"@, "awemeId"@]);
    let author_keys: Vec<&str> = vec![
        "author.uniqueId",
        "author.unique_id",
        "author.username",
        "author.handle",
        "uniqueId",
    ];
    assert(reading::names(author_keys@) =~= seq![
        "author.uniqueId"@,
        "author.unique_id"@,
        "author.username"@,
        "author.handle"@,
        "uniqueId"@,
    ]);
    let id: String = match reading::first_string(value, id_keys.as_slice()) {
        Some(id) => id,
        None => {
            return None;
        },
    };
    let author: String = match reading::first_string(value, author_keys.as_slice()) {
        Some(author) => author,
        None => {
            return None;
        },
    };
    match handles::normalize_handle(author.as_str()) {
        Some(handle) => {
            let mut url: String = "https://www.tiktok.com/@".to_string();
            url.append(handle.as_str());
            match kind {
                TiktokPostKind::Video => url.append("/video/"),
                TiktokPostKind::Photo => url.append("/photo/"),
            }
            url.append(id.as_str());
            Some(url)
        },
        None => None,
    }
}

/// The paths at which a post gives its own address.
pub open spec fn post_url_keys() -> Seq<Seq<char>> {
    seq![
        "url"@,
        "webVideoUrl"@,
        "web_video_url"@,
        "share_url"@,
        "shareUrl"@,
        "video_url"@,
        "videoUrl"@,
        "share_info.share_url"@,
        "shareInfo.shareUrl"@,
    ]
}

/// The paths at which a post says what it is made of.
pub open spec fn kind_keys() -> Seq<Seq<char>> {
    seq!["kind"@, "type"@, "media_type"@, "mediaType"@, "aweme_type"@, "awemeType"@]
}

/// The paths at which a post says how often it was seen.
pub open spec fn view_count_keys() -> Seq<Seq<char>> {
    seq![
        "views"@,
        "view_count"@,
        "viewCount"@,
        "play_count"@,
        "playCount"@,
        "stats.playCount"@,
        "stats.views"@,
        "statistics.play_count"@,
        "statistics.playCount"@,
    ]
}

/// The paths at which a post says when it was published.
pub open spec fn published_keys() -> Seq<Seq<char>> {
    seq![
        "published_at"@,
        "publishedAt"@,
        "created_at"@,
        "createdAt"@,
        "create_time"@,
        "createTime"@,
    ]
}

/// The paths at which a post says whether it is pinned.
pub open spec fn pinned_keys() -> Seq<Seq<char>> {
    seq![
        "isPinnedItem"@,
        "isPinned"@,
        "is_pinned"@,
        "pinned"@,
        "is_top"@,
        "isTop"@,
        "item_control.isPinned"@,
    ]
}

/// The post has images of its own.
pub open spec fn has_images(json: JsonView) -> bool {
    ||| slide_images(json).len() > 0
    ||| json::field(json, "imagePost"@) is Some
    ||| json::field(json, "image_post"@) is Some
}

/// The address of a post: the one that it gives, else one that is built.
pub open spec fn post_url(json: JsonView) -> Option<Seq<char>> {
    let given = reading::string_at(json, post_url_keys());
    if given is Some {
        given
    } else {
        built_url(
            json,
            if has_images(json) {
                TiktokPostKind::Photo
            } else {
                TiktokPostKind::Video
            },
        )
    }
}

/// The post that a document describes, if it describes one: a post needs an
/// address.
pub open spec fn post_of(json: JsonView) -> Option<PostView> {
    match post_url(json) {
        Some(url) => Some(
            PostView {
                id: reading::string_at(json, seq!["id"@, "aweme_id"@, "awemeId"@, "video.id"@]),
                url: url,
                caption: reading::string_at(
                    json,
                    seq!["caption"@, "desc"@, "description"@, "text"@],
                ),
                views: match reading::count_at(json, view_count_keys()) {
                    Some(n) => n,
                    None => 0,
                },
                published_at: reading::time_at(json, published_keys()),
                kind: if has_images(json) {
                    TiktokPostKind::Photo
                } else {
                    models::kind_of(url, reading::string_at(json, kind_keys()))
                },
                is_pinned: match reading::bool_at(json, pinned_keys()) {
                    Some(b) => b,
                    None => false,
                },
                source_url: Some(url),
                slide_image_urls: slide_images(json),
                visual_image_urls: visual_images(json),
                raw: json,
            },
        ),
        None => None,
    }
}

fn find_post_url(value: &Json, with_images: bool) -> (r: Option<String>)
    requires
        with_images == has_images(value@),
    ensures
        models::opt_text(r) == post_url(value@),
{
    let keys: Vec<&str> = vec![
        "url",
        "webVideoUrl",
        "web_video_url",
        "share_url",
        "shareUrl",
        "video_url",
        "videoUrl",
        "share_info.share_url",
        "shareInfo.shareUrl",
    ];
    assert(reading::names(keys@) =~= post_url_keys());
    let given: Option<String> = reading::first_string(value, keys.as_slice());
    if given.is_some() {
        given
    } else if with_images {
        build_tiktok_post_url(value, TiktokPostKind::Photo)
    } else {
        build_tiktok_post_url(value, TiktokPostKind::Video)
    }
}

fn find_kind_hint(value: &Json) -> (r: Option<String>)
    ensures
        models::opt_text(r) == reading::string_at(value@, kind_keys()),
{
    let keys: Vec<&str> = vec![
        "kind",
        "type",
        "media_type",
        "mediaType",
        "aweme_type",
        "awemeType",
    ];
    assert(reading::names(keys@) =~= kind_keys());
    reading::first_string(value, keys.as_slice())
}

fn find_view_count(value: &Json) -> (r: Option<u64>)
    ensures
        r == reading::count_at(value@, view_count_keys()),
{
    let keys: Vec<&str> = vec![
        "views",
        "view_count",
        "viewCount",
        "play_count",
        "playCount",
        "stats.playCount",
        "stats.views",
        "statistics.play_count",
        "statistics.playCount",
    ];
    assert(reading::names(keys@) =~= view_count_keys());
    reading::first_u64(value, keys.as_slice())
}

fn find_pinned(value: &Json) -> (r: Option<bool>)
    ensures
        r == reading::bool_at(value@, pinned_keys()),
{
    let keys: Vec<&str> = vec![
        "isPinnedItem",
        "isPinned",
        "is_pinned",
        "pinned",
        "is_top",
        "isTop",
        "item_control.isPinned",
    ];
    assert(reading::names(keys@) =~= pinned_keys());
    reading::first_bool(value, keys.as_slice())
}

/// The post that a document describes, if it describes one.
pub fn parse_post(value: &Json) -> (r: Option<TiktokPost>)
    ensures
        match r {
            Some(post) => post_of(value@) == Some(post@),
            None => post_of(value@) is None,
        },
        match r {
            Some(TiktokPost { published_at: Some(at), .. }) => at.wf(),
            _ => true,
        },
{
    let slide_image_urls: Vec<String> = parse_slide_images(value);
    let with_images: bool = slide_image_urls.len() > 0 || value.get("imagePost").is_some()
        || value.get("image_post").is_some();
    let kind_hint: Option<String> = find_kind_hint(value);
    let url: String = match find_post_url(value, with_images) {
        Some(url) => url,
        None => {
            return None;
        },
    };
    let kind: TiktokPostKind = if with_images {
        TiktokPostKind::Photo
    } else {
        match &kind_hint {
            Some(hint) => TiktokPostKind::from_url_and_type(url.as_str(), Some(hint.as_str())),
            None => TiktokPostKind::from_url_and_type(url.as_str(), None),
        }
    };
    let id_keys: Vec<&str> = vec!["id", "aweme_id", "awemeId", "video.id"];
    assert(reading::names(id_keys@) =~= seq!["id"@, "aweme_id"@, "awemeId"@, "video.id"@]);
    let caption_keys: Vec<&str> = vec!["caption", "desc", "description", "text"];
    assert(reading::names(caption_keys@) =~= seq![
        "caption"@,
        "desc"@,
        "description"@,
        "text"@,
    ]);
    let published: Vec<&str> = vec![
        "published_at",
        "publishedAt",
        "created_at",
        "createdAt",
        "create_time",
        "createTime",
    ];
    assert(reading::names(published@) =~= published_keys());
    Some(
        TiktokPost {
            id: reading::first_string(value, id_keys.as_slice()),
            source_url: Some(url.clone()),
            url,
            caption: reading::first_string(value, caption_keys.as_slice()),
            views: match find_view_count(value) {
                Some(n) => n,
                None => 0,
            },
            published_at: reading::first_timestamp(value, published.as_slice()),
            kind,
            is_pinned: match find_pinned(value) {
                Some(b) => b,
                None => false,
            },
            slide_image_urls,
            visual_image_urls: parse_visual_images(value),
            raw: value.copy(),
        },
    )
}

// ---------------------------------------------------------------------------
// All posts
// ---------------------------------------------------------------------------
/// The documents that may describe posts.
pub open spec fn post_items(json: JsonView) -> Seq<JsonView> {
    gathered(
        seq![
            json::list_field(json, "aweme_list"@),
            json::list_field(json, "awemeList"@),
            json::list_field(json, "videos"@),
            json::list_field(json, "posts"@),
            json::list_field(json, "items"@),
            json::list_field(json, "itemList"@),
            list_field2(json, "creator"@, "videos"@),
            list_field2(json, "user"@, "videos"@),
        ],
    )
}

/// The posts that a document lists.
pub open spec fn posts_of(json: JsonView) -> Seq<PostView> {
    lists::present(post_items(json).map_values(|j: JsonView| post_of(j)))
}

/// The posts that a document lists.
pub fn parse_videos(root: &Json) -> (r: Vec<TiktokPost>)
    ensures
        models::post_views(r@) == posts_of(root@),
        models::dates_wf(models::post_views(r@)),
{
    let places: Vec<Option<&Vec<Json>>> = vec![
        root.get_list("aweme_list"),
        root.get_list("awemeList"),
        root.get_list("videos"),
        root.get_list("posts"),
        root.get_list("items"),
        root.get_list("itemList"),
        list_in(root, "creator", "videos"),
        list_in(root, "user", "videos"),
    ];
    let items: Vec<&Json> = gather(&places);
    proof {
        assert(place_views(places@) =~= seq![
            json::list_field(root@, "aweme_list"@),
            json::list_field(root@, "awemeList"@),
            json::list_field(root@, "videos"@),
            json::list_field(root@, "posts"@),
            json::list_field(root@, "items"@),
            json::list_field(root@, "itemList"@),
            list_field2(root@, "creator"@, "videos"@),
            list_field2(root@, "user"@, "videos"@),
        ]);
    }
    let ghost all = post_items(root@).map_values(|j: JsonView| post_of(j));
    let mut r: Vec<TiktokPost> = Vec::new();
    let mut i: usize = 0;
    assert(models::post_views(r@) =~= lists::present(all.take(0)));
    while i < items.len()
        invariant
            i <= items@.len(),
            post_items(root@) == ref_views(items@),
            all == post_items(root@).map_values(|j: JsonView| post_of(j)),
            models::post_views(r@) == lists::present(all.take(i as int)),
            models::dates_wf(models::post_views(r@)),
        decreases items@.len() - i,
    {
        let ghost before = r@;
        proof {
            assert(all.take(i + 1) =~= all.take(i as int).push(all[i as int]));
            lists::lemma_present_push(all.take(i as int), all[i as int]);
            assert(all[i as int] == post_of(items@[i as int]@));
        }
        if let Some(post) = parse_post(items[i]) {
            r.push(post);
            proof {
                assert(models::post_views(r@) =~= models::post_views(before).push(post@));
                assert forall|k: int| 0 <= k < models::post_views(r@).len() implies match (
                #[trigger] models::post_views(r@)[k]).published_at {
                    Some(at) => at.wf(),
                    None => true,
                } by {
                    if k < before.len() {
                        assert(models::post_views(r@)[k] == models::post_views(before)[k]);
                    }
                }
            }
        }
        i = i + 1;
    }
    assert(all.take(i as int) =~= all);
    r
}

// ---------------------------------------------------------------------------
// Newest first
// ---------------------------------------------------------------------------
/// The number of posts that are kept of one creator.
pub const KEPT_POSTS: usize = 30;

pub open spec fn age_key(post: PostView) -> Seq<SortView> {
    match post.published_at {
        Some(at) => seq![SortView::Number(at.secs as int), SortView::Number(at.nanos as int)],
        None => seq![SortView::Missing, SortView::Missing],
    }
}

/// The posts from the newest to the oldest; those without a date come last, and
/// posts of one moment keep their order.
pub open spec fn newest_first(posts: Seq<PostView>) -> Seq<PostView> {
    ranking::ranking(
        posts.map_values(|p: PostView| age_key(p)),
        seq![true, true],
    ).map_values(|i: int| posts[i])
}

/// The newest posts, as many as are kept.
pub open spec fn kept_posts(posts: Seq<PostView>) -> Seq<PostView> {
    let sorted = newest_first(posts);
    if sorted.len() <= KEPT_POSTS {
        sorted
    } else {
        sorted.take(KEPT_POSTS as int)
    }
}

/// A copy of a post.
pub fn copy_post(post: &TiktokPost) -> (r: TiktokPost)
    ensures
        r@ == post@,
{
    TiktokPost {
        id: models::copy_opt(&post.id),
        url: post.url.clone(),
        caption: models::copy_opt(&post.caption),
        views: post.views,
        published_at: post.published_at,
        kind: post.kind,
        is_pinned: post.is_pinned,
        source_url: models::copy_opt(&post.source_url),
        slide_image_urls: models::copy_texts(&post.slide_image_urls),
        visual_image_urls: models::copy_texts(&post.visual_image_urls),
        raw: post.raw.copy(),
    }
}

fn age_of(post: &TiktokPost) -> (r: Vec<SortValue>)
    ensures
        ranking::key_view(r@) == age_key(post@),
        r@.len() == 2,
{
    let r: Vec<SortValue> = match post.published_at {
        Some(at) => vec![SortValue::Number(at.secs as i128), SortValue::Number(at.nanos as i128)],
        None => vec![SortValue::Missing, SortValue::Missing],
    };
    assert(ranking::key_view(r@) =~= age_key(post@));
    r
}

/// The newest posts, as many as are kept.
pub fn keep_newest(posts: &Vec<TiktokPost>) -> (r: Vec<TiktokPost>)
    ensures
        models::post_views(r@) == kept_posts(models::post_views(posts@)),
        r@.len() <= KEPT_POSTS,
        models::dates_wf(models::post_views(posts@)) ==> models::dates_wf(
            models::post_views(r@),
        ),
{
    let ghost all = models::post_views(posts@);
    let ghost want = all.map_values(|p: PostView| age_key(p));
    let mut keys: Vec<Vec<SortValue>> = Vec::new();
    let mut i: usize = 0;
    while i < posts.len()
        invariant
            i <= posts@.len(),
            all == models::post_views(posts@),
            want == all.map_values(|p: PostView| age_key(p)),
            ranking::keys_view(keys@) == want.take(i as int),
            keys@.len() == i,
            forall|k: int| 0 <= k < keys@.len() ==> (#[trigger] keys@[k])@.len() == 2,
        decreases posts@.len() - i,
    {
        let ghost before = keys@;
        keys.push(age_of(&posts[i]));
        i = i + 1;
        proof {
            assert(ranking::keys_view(keys@) =~= ranking::keys_view(before).push(want[i - 1]));
            assert(want.take(i as int) =~= want.take(i - 1).push(want[i - 1]));
        }
    }
    assert(want.take(i as int) =~= want);
    let descending: Vec<bool> = vec![true, true];
    assert(descending@ =~= seq![true, true]);
    let places: Vec<usize> = ranking::rank(&keys, &descending);
    let ghost sorted = newest_first(all);
    proof {
        assert(sorted.len() == places@.len());
    }
    let mut r: Vec<TiktokPost> = Vec::new();
    let mut k: usize = 0;
    while k < places.len() && k < KEPT_POSTS
        invariant
            k <= places@.len(),
            k <= KEPT_POSTS,
            r@.len() == k,
            all == models::post_views(posts@),
            sorted == newest_first(all),
            sorted.len() == places@.len(),
            ranking::positions(places@) == ranking::ranking(
                all.map_values(|p: PostView| age_key(p)),
                seq![true, true],
            ),
            forall|j: int| 0 <= j < places@.len() ==> (#[trigger] places@[j]) < posts@.len(),
            models::post_views(r@) == sorted.take(k as int),
            models::dates_wf(all) ==> models::dates_wf(models::post_views(r@)),
        decreases places@.len() - k,
    {
        let ghost before = r@;
        let at: usize = places[k];
        r.push(copy_post(&posts[at]));
        k = k + 1;
        proof {
            assert(ranking::positions(places@)[k - 1] == at);
            assert(sorted[k - 1] == all[at as int]);
            assert(models::post_views(r@) =~= models::post_views(before).push(all[at as int]));
            assert(sorted.take(k as int) =~= sorted.take(k - 1).push(sorted[k - 1]));
            if models::dates_wf(all) {
                let views = models::post_views(r@);
                assert forall|j: int| 0 <= j < views.len() implies match (
                #[trigger] views[j]).published_at {
                    Some(at) => at.wf(),
                    None => true,
                } by {
                    if j < k - 1 {
                        assert(views[j] == models::post_views(before)[j]);
                    } else {
                        assert(views[j] == all[at as int]);
                    }
                }
            }
        }
    }
    assert(sorted.take(sorted.len() as int) =~= sorted);
    r
}

/// `a` is newer than `b`; every post with a date is newer than one without.
pub open spec fn newer(a: PostView, b: PostView) -> bool {
    match (a.published_at, b.published_at) {
        (Some(x), Some(y)) => crate::moment::earlier(y, x),
        (Some(_), None) => true,
        _ => false,
    }
}

/// Of the posts that are kept, none is newer than one before it; there are no
/// more than the limit, and each is one of the given posts.
pub proof fn law_kept_posts(posts: Seq<PostView>)
    ensures
        kept_posts(posts).len() <= KEPT_POSTS,
        forall|i: int, j: int|
            0 <= i < j < kept_posts(posts).len() ==> !newer(
                #[trigger] kept_posts(posts)[j],
                #[trigger] kept_posts(posts)[i],
            ),
        forall|i: int|
            0 <= i < kept_posts(posts).len() ==> posts.contains(#[trigger] kept_posts(posts)[i]),
{
    let keys = posts.map_values(|p: PostView| age_key(p));
    let down = seq![true, true];
    ranking::lemma_ranking(keys, down);
    let places = ranking::ranking(keys, down);
    let sorted = newest_first(posts);
    let kept = kept_posts(posts);
    assert forall|i: int| 0 <= i < kept.len() implies posts.contains(#[trigger] kept[i]) by {
        assert(places.contains(places[i]));
        assert(kept[i] == sorted[i]);
        assert(sorted[i] == posts[places[i]]);
    }
    assert forall|i: int, j: int| 0 <= i < j < kept.len() implies !newer(
        #[trigger] kept[j],
        #[trigger] kept[i],
    ) by {
        assert(places.contains(places[i]));
        assert(places.contains(places[j]));
        assert(ranking::row_order(keys, down)(places[i], places[j]));
        let a = posts[places[i]];
        let b = posts[places[j]];
        assert(keys[places[i]] == age_key(a));
        assert(keys[places[j]] == age_key(b));
        reveal_with_fuel(ranking::key_before, 3);
        if newer(b, a) {
            assert(ranking::key_before(age_key(b), age_key(a), down, 0));
            assert(!ranking::key_before(age_key(a), age_key(b), down, 0));
        }
    }
}

/// Where there are no more posts than the limit, all of them are kept.
pub proof fn law_few_posts_all_kept(posts: Seq<PostView>, i: int)
    requires
        posts.len() <= KEPT_POSTS,
        0 <= i < posts.len(),
    ensures
        kept_posts(posts).contains(posts[i]),
{
    let keys = posts.map_values(|p: PostView| age_key(p));
    let down = seq![true, true];
    ranking::lemma_ranking(keys, down);
    ranking::lemma_ranking_len(keys, down);
    let places = ranking::ranking(keys, down);
    assert(places.contains(i));
    let k = choose|k: int| 0 <= k < places.len() && places[k] == i;
    assert(newest_first(posts)[k] == posts[i]);
    assert(kept_posts(posts) == newest_first(posts));
}

} // verus!
