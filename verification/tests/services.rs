//! Reading what the services reply.

use creatorprogram_crawler::crawler::content::{
    format_caption_fallback_section, select_classification_posts,
};
use creatorprogram_crawler::floating::Real;
use creatorprogram_crawler::handles::normalize_handle;
use creatorprogram_crawler::json::Json;
use creatorprogram_crawler::json_text::parse_json;
use creatorprogram_crawler::models::{
    AppClassification, CreatorSnapshot, TiktokPost, TiktokPostKind,
};
use creatorprogram_crawler::services::openai::{
    apply_bio_ambassador_fallback, bio_ambassador_app_candidate, canonicalize_classification,
};
use creatorprogram_crawler::services::responses::extract_output_text;
use creatorprogram_crawler::services::scraper::{
    is_nonfatal_following_error, is_transient_scraper_request_error,
};
use creatorprogram_crawler::services::tiktok::{
    normalize_country_code, parse_creator_snapshot, snapshot_from_social_values,
};
use creatorprogram_crawler::stats::calculate_creator_stats;

fn json(text: &str) -> Json {
    parse_json(text).unwrap_or_else(|error| panic!("{error}"))
}

fn bits_of(x: f64) -> Real {
    Real { bits: x.to_bits() }
}

fn number(x: Real) -> f64 {
    f64::from_bits(x.bits)
}

fn post(id: &str, kind: TiktokPostKind, is_pinned: bool) -> TiktokPost {
    TiktokPost {
        id: Some(id.to_string()),
        url: format!("https://www.tiktok.com/@creator/video/{id}"),
        caption: None,
        views: 0,
        published_at: None,
        kind,
        is_pinned,
        source_url: Some(format!("https://www.tiktok.com/@creator/video/{id}")),
        slide_image_urls: Vec::new(),
        visual_image_urls: Vec::new(),
        raw: Json::Null,
    }
}

fn snapshot_with(videos: Vec<TiktokPost>) -> CreatorSnapshot {
    CreatorSnapshot {
        handle: "creator".to_string(),
        display_name: None,
        country_code: None,
        bio: String::new(),
        follower_count: None,
        following_count: None,
        following: Vec::new(),
        videos,
        raw: Json::Null,
    }
}

#[test]
fn selects_latest_three_non_pinned_videos() {
    let snapshot = snapshot_with(vec![
        post("pinned", TiktokPostKind::Video, true),
        post("photo", TiktokPostKind::Photo, false),
        post("one", TiktokPostKind::Video, false),
        post("two", TiktokPostKind::Video, false),
        post("three", TiktokPostKind::Video, false),
        post("four", TiktokPostKind::Video, false),
    ]);

    let selected = select_classification_posts(&snapshot);
    let ids = selected.iter().filter_map(|post| post.id.as_deref()).collect::<Vec<_>>();
    assert_eq!(ids, vec!["one", "two", "three"]);
}

#[test]
fn selected_posts_empty_when_only_pinned_or_photo_posts_exist() {
    let snapshot = snapshot_with(vec![
        post("pinned", TiktokPostKind::Video, true),
        post("photo", TiktokPostKind::Photo, false),
    ]);

    assert!(select_classification_posts(&snapshot).is_empty());
}

#[test]
fn caption_fallback_preserves_context_when_transcript_fails() {
    let mut post = post("one", TiktokPostKind::Video, false);
    post.caption = Some("Use Astra AI for notes".to_string());

    let section = format_caption_fallback_section(0, 3, &post).unwrap();

    assert!(section.contains("Transcript unavailable."));
    assert!(section.contains("Use Astra AI for notes"));
    assert!(section.contains("Post 1 of 3"));
}

#[test]
fn normalizes_common_tiktok_handle_inputs() {
    assert_eq!(normalize_handle("@Creator.Name_1"), Some("creator.name_1".into()));
    assert_eq!(
        normalize_handle("https://www.tiktok.com/@SomeCreator/video/123"),
        Some("somecreator".into())
    );
    assert_eq!(
        normalize_handle("https://www.tiktok.com/@SomeCreator?lang=en"),
        Some("somecreator".into())
    );
    assert_eq!(normalize_handle(" "), None);
}

#[test]
fn extracts_output_text_from_responses_shape() {
    let response = json(
        r#"{
            "output": [{
                "type": "message",
                "content": [{
                    "type": "output_text",
                    "text": "{\"ok\":true}"
                }]
            }]
        }"#,
    );

    assert_eq!(extract_output_text(&response), Some("{\"ok\":true}".to_string()));
}

#[test]
fn canonicalizes_known_app_names() {
    let classification = canonicalize_classification(
        AppClassification {
            promotes_app: true,
            app_name: Some("duolingo".to_string()),
            is_existing_app: false,
            existing_app_name: None,
            is_new_app: true,
            supporting_post_count: 2,
            language_code: "eng".to_string(),
            creator_name: Some("unknown".to_string()),
            creator_email: Some("unknown".to_string()),
            confidence: bits_of(1.3),
            evidence: "bio says ambassador".to_string(),
        },
        &vec!["Duolingo".to_string()],
    );

    assert_eq!(classification.app_name, Some("Duolingo".to_string()));
    assert!(classification.is_existing_app);
    assert!(!classification.is_new_app);
    assert_eq!(number(classification.confidence), 1.0);
    assert_eq!(classification.language_code, "ENG");
}

#[test]
fn rejects_app_classification_with_only_one_supporting_post() {
    let classification = canonicalize_classification(
        AppClassification {
            promotes_app: true,
            app_name: Some("Duolingo".to_string()),
            is_existing_app: true,
            existing_app_name: Some("Duolingo".to_string()),
            is_new_app: false,
            supporting_post_count: 1,
            language_code: "ENG".to_string(),
            creator_name: Some("Jamie".to_string()),
            creator_email: Some("jamie@example.com".to_string()),
            confidence: bits_of(0.9),
            evidence: "Only Post 1 shows the app.".to_string(),
        },
        &vec!["Duolingo".to_string()],
    );

    assert!(!classification.promotes_app);
    assert_eq!(classification.app_name, None);
    assert_eq!(classification.supporting_post_count, 0);
    assert_eq!(classification.creator_name.as_deref(), Some("Jamie"));
    assert_eq!(classification.creator_email.as_deref(), Some("jamie@example.com"));
    assert!(classification.evidence.contains("minimum is 2"));
}

#[test]
fn extracts_app_ambassador_signal_from_bio() {
    assert_eq!(
        bio_ambassador_app_candidate("The ick ambassador\nMain acc: @Amina"),
        Some("The ick".to_string())
    );
    assert_eq!(
        bio_ambassador_app_candidate("Ambassador for Pingo AI"),
        Some("Pingo AI".to_string())
    );
    assert_eq!(bio_ambassador_app_candidate("brand ambassador"), None);
}

fn inconclusive() -> AppClassification {
    AppClassification {
        promotes_app: false,
        app_name: None,
        is_existing_app: false,
        existing_app_name: None,
        is_new_app: false,
        supporting_post_count: 0,
        language_code: "ENG".to_string(),
        creator_name: None,
        creator_email: None,
        confidence: bits_of(0.2),
        evidence: "Videos were inconclusive.".to_string(),
    }
}

#[test]
fn bio_ambassador_fallback_requires_two_supporting_posts() {
    let classification = apply_bio_ambassador_fallback(
        inconclusive(),
        "The ick ambassador",
        "Post 1 of 3\nCaption: The Ick changed my routine\n\n---\n\nPost 2 of 3\nCaption: Still using The Ick today",
        &vec!["The Ick".to_string()],
    );

    assert!(classification.promotes_app);
    assert_eq!(classification.app_name, Some("The Ick".to_string()));
    assert_eq!(classification.existing_app_name, Some("The Ick".to_string()));
    assert!(classification.is_existing_app);
    assert!(!classification.is_new_app);
    assert_eq!(classification.supporting_post_count, 2);
    assert_eq!(classification.language_code, "ENG");
}

#[test]
fn bio_ambassador_fallback_does_not_promote_without_video_support() {
    let classification = apply_bio_ambassador_fallback(
        inconclusive(),
        "The ick ambassador",
        "Post 1 of 3\nCaption: daily vlog",
        &vec!["The Ick".to_string()],
    );

    assert!(!classification.promotes_app);
    assert_eq!(classification.app_name, None);
}

#[test]
fn parses_canonical_creator_payload() {
    let snapshot = parse_creator_snapshot(
        "seed",
        json(
            r#"{
                "handle": "Seed",
                "bio": "building with ExampleApp",
                "following": ["@A", "https://tiktok.com/@B"],
                "videos": [
                    {"url": "https://tiktok.com/@seed/video/1", "views": 10, "kind": "video"},
                    {"url": "https://tiktok.com/@seed/photo/2", "views": 40, "images": [{"url": "https://img/1.png"}]}
                ]
            }"#,
        ),
    )
    .ok()
    .unwrap();

    assert_eq!(snapshot.handle, "seed");
    assert_eq!(snapshot.following, vec!["a", "b"]);
    assert_eq!(snapshot.videos.len(), 2);
    assert_eq!(snapshot.videos[1].kind, TiktokPostKind::Photo);
}

#[test]
fn parses_legacy_profile_posts_and_following_pages_fixture() {
    let snapshot = snapshot_from_social_values(
        "seed",
        json(
            r#"{
                "userInfo": {
                    "user": {
                        "uniqueId": "SeedCreator",
                        "nickname": "Seed",
                        "signature": "Ambassador for ExampleApp",
                        "secUid": "SEC123"
                    }
                }
            }"#,
        ),
        json(
            r#"{
                "itemList": [
                    {
                        "id": "100",
                        "desc": "try ExampleApp",
                        "createTime": "1710000000",
                        "isPinnedItem": true,
                        "author": { "uniqueId": "SeedCreator" },
                        "stats": { "playCount": 2500 },
                        "video": {
                            "downloadAddr": "https://video.example/100.mp4",
                            "cover": "https://image.example/cover.jpg"
                        }
                    },
                    {
                        "id": "101",
                        "desc": "slides",
                        "createTime": "1710000100",
                        "author": { "uniqueId": "SeedCreator" },
                        "stats": { "playCount": 5000 },
                        "imagePost": {
                            "images": [
                                { "imageURL": { "urlList": ["https://image.example/1.jpg"] } }
                            ]
                        }
                    }
                ]
            }"#,
        ),
        vec![json(
            r#"{
                "userList": [
                    { "user": { "uniqueId": "FriendA" } },
                    { "user": { "uniqueId": "friendb" } }
                ],
                "hasMore": false
            }"#,
        )],
        None,
    )
    .ok()
    .unwrap();

    assert_eq!(snapshot.handle, "seedcreator");
    assert_eq!(snapshot.bio, "Ambassador for ExampleApp");
    assert_eq!(snapshot.following, vec!["frienda", "friendb"]);
    assert_eq!(snapshot.videos.len(), 2);
    assert_eq!(snapshot.videos[0].kind, TiktokPostKind::Photo);
    assert_eq!(snapshot.videos[0].url, "https://www.tiktok.com/@seedcreator/photo/101");
    assert_eq!(
        snapshot.videos[1].source_url.as_deref(),
        Some("https://www.tiktok.com/@seedcreator/video/100")
    );
    assert!(snapshot.videos[1].is_pinned);
    assert_eq!(
        snapshot.videos[1].visual_image_urls,
        vec!["https://image.example/cover.jpg"]
    );
}

#[test]
fn parses_trimmed_social_profile_scraper_payloads() {
    let snapshot = snapshot_from_social_values(
        "seed",
        json(
            r#"{
                "user": {
                    "unique_id": "SeedCreator",
                    "nickname": "Seed",
                    "signature": "Astra AI notes and study systems"
                },
                "stats": {
                    "followerCount": 1200,
                    "following_count": 31
                },
                "itemList": []
            }"#,
        ),
        json(
            r#"{
                "aweme_list": [
                    {
                        "aweme_id": "200",
                        "desc": "pinned intro",
                        "create_time": 1710000000,
                        "is_pinned": true,
                        "author": { "unique_id": "SeedCreator" },
                        "statistics": { "play_count": 1234 },
                        "video": {
                            "duration": 12,
                            "cover": { "url_list": ["https://image.example/cover-200.jpg"] },
                            "play_addr": { "url_list": ["https://video.example/play-200.mp4"] },
                            "download_addr": { "url_list": [] },
                            "download_no_watermark_addr": { "url_list": [] },
                            "has_watermark": true
                        }
                    },
                    {
                        "aweme_id": "201",
                        "desc": "new post",
                        "create_time": 1710000100,
                        "is_pinned": false,
                        "author": { "unique_id": "SeedCreator" },
                        "statistics": { "play_count": 5678 },
                        "video": {
                            "duration": 9,
                            "cover": { "url_list": ["https://image.example/cover-201.jpg"] },
                            "play_addr": { "url_list": ["https://video.example/play-201.mp4"] },
                            "download_addr": { "url_list": [] },
                            "download_no_watermark_addr": { "url_list": [] },
                            "has_watermark": true
                        }
                    }
                ],
                "max_cursor": "0",
                "has_more": false
            }"#,
        ),
        vec![json(
            r#"{
                "followings": [
                    { "unique_id": "FriendA", "nickname": "Friend A", "verified": false },
                    { "unique_id": "friendb", "nickname": "Friend B", "verified": false }
                ],
                "total": 2,
                "min_time": "0",
                "has_more": false
            }"#,
        )],
        Some(json(r#"{ "success": true, "region": "de" }"#)),
    )
    .ok()
    .unwrap();

    assert_eq!(snapshot.handle, "seedcreator");
    assert_eq!(snapshot.follower_count, Some(1200));
    assert_eq!(snapshot.following_count, Some(31));
    assert_eq!(snapshot.country_code.as_deref(), Some("DE"));
    assert_eq!(snapshot.following, vec!["frienda", "friendb"]);
    assert_eq!(snapshot.videos.len(), 2);
    assert_eq!(snapshot.videos[0].url, "https://www.tiktok.com/@seedcreator/video/201");
    assert_eq!(snapshot.videos[0].views, 5678);
    assert!(!snapshot.videos[0].is_pinned);
    assert_eq!(
        snapshot.videos[0].visual_image_urls,
        vec!["https://image.example/cover-201.jpg"]
    );
    assert_eq!(
        snapshot.videos[0].source_url.as_deref(),
        Some("https://www.tiktok.com/@seedcreator/video/201")
    );
}

#[test]
fn treats_private_or_empty_following_errors_as_nonfatal() {
    let error = "social profile scraper returned 502 Bad Gateway: {\"success\":false,\"error\":\"upstream_error\",\"message\":\"Browser Use signer returned no TikTok following users.\"}";
    assert!(is_nonfatal_following_error(error));

    let error = "social profile scraper returned 403: private profile";
    assert!(is_nonfatal_following_error(error));

    let error = "failed to call social profile scraper: operation timed out";
    assert!(is_nonfatal_following_error(error));
    assert!(is_transient_scraper_request_error(error));
}

#[test]
fn maps_profile_locale_codes_to_country_markets() {
    assert_eq!(normalize_country_code("EN").as_deref(), Some("GB"));
    assert_eq!(normalize_country_code("CA").as_deref(), Some("ES"));
    assert_eq!(normalize_country_code("CS").as_deref(), Some("CZ"));
    assert_eq!(normalize_country_code("UK").as_deref(), Some("UA"));
    assert_eq!(normalize_country_code("SV").as_deref(), Some("SE"));
    assert_eq!(normalize_country_code("de").as_deref(), Some("DE"));
}

fn viewed(views: u64) -> TiktokPost {
    TiktokPost {
        id: None,
        url: format!("https://tiktok.test/video/{views}"),
        caption: None,
        views,
        published_at: None,
        kind: TiktokPostKind::Video,
        is_pinned: false,
        source_url: None,
        slide_image_urls: Vec::new(),
        visual_image_urls: Vec::new(),
        raw: Json::Null,
    }
}

#[test]
fn calculates_average_median_and_most_viral() {
    let stats = calculate_creator_stats(&vec![viewed(10), viewed(30), viewed(20), viewed(100)]);

    let avg_views = stats.avg_views.total as f64 / stats.avg_views.count as f64;
    let median_views = (stats.median_views.low as f64 + stats.median_views.high as f64) / 2.0;
    assert_eq!(avg_views, 40.0);
    assert_eq!(median_views, 25.0);
    assert_eq!(stats.most_viral_video_views, Some(100));
}
