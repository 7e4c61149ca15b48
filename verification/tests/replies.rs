//! Requests to the services, and what becomes of their replies.

use creatorprogram_crawler::config::{
    AppConfig, ConfigError, Environment, TikTokScraperProvider,
};
use creatorprogram_crawler::crawler::content::{
    assemble_content, collect_images, format_post_content_section, reading_of, video_content,
    with_found_language, PostReading,
};
use creatorprogram_crawler::floating::Real;
use creatorprogram_crawler::json::Json;
use creatorprogram_crawler::json_text::{parse_json, to_text};
use creatorprogram_crawler::models::{
    AppClassification, ExtractedContent, TiktokPost, TiktokPostKind,
};
use creatorprogram_crawler::services::elevenlabs::{
    after_stage, check_media, speech_to_text_endpoint, transcript_content, transcription_error,
    transcription_fields, TranscriptionStage, TranscriptionStep,
};
use creatorprogram_crawler::services::openai::{
    canonicalize_classification, choose_name_in_line, clean_ambassador_app_candidate,
    count_post_sections_containing_app, normalize_detection_text, normalize_optional_email,
    normalize_optional_model_value,
};
use creatorprogram_crawler::services::posts::{keep_newest, parse_post, KEPT_POSTS};
use creatorprogram_crawler::services::responses::{
    classification_request, extract_output_text, image_content_type, image_data_url, image_inputs,
    language_request, read_response, responses_endpoint, retry_without_images, slideshow_request,
    structured_output_error, truncate, Profile, MAX_OPENAI_IMAGE_BYTES,
};
use creatorprogram_crawler::services::scraper::{
    check_reply, handle_params, posts_params, request_endpoint, with_region, Attempts,
    FollowingPages,
};
use creatorprogram_crawler::services::tiktok::{
    normalize_country_code, parse_creator_snapshot, parse_region_country, snapshot_from_text,
    FixtureTikTokScraper,
};
use creatorprogram_crawler::stats::calculate_creator_stats;

fn json(text: &str) -> Json {
    parse_json(text).unwrap_or_else(|error| panic!("{error}"))
}

fn env(list: &[(&str, &str)]) -> Environment {
    Environment {
        variables: list.iter().map(|(k, v)| (k.to_string(), v.to_string())).collect(),
    }
}

fn post(id: &str, views: u64) -> TiktokPost {
    TiktokPost {
        id: Some(id.to_string()),
        url: format!("https://t/{id}"),
        caption: None,
        views,
        published_at: None,
        kind: TiktokPostKind::Video,
        is_pinned: false,
        source_url: None,
        slide_image_urls: Vec::new(),
        visual_image_urls: vec![format!("https://i/{id}")],
        raw: Json::Null,
    }
}

fn content(text: &str, language: &str) -> ExtractedContent {
    ExtractedContent { text: text.to_string(), language_code: language.to_string() }
}

#[test]
fn settings_have_defaults() {
    let config = AppConfig::from_env(
        &env(&[
            ("OPENAI_API_KEY", " key "),
            ("ELEVENLABS_API_KEY", "k"),
            ("SOCIAL_PROFILE_SCRAPER_BASE_URL", "https://s"),
            ("TIKTOK_SCRAPER_MAX_FOLLOWING_PAGES", "0"),
        ]),
        "db.sqlite".to_string(),
        Some("  ".to_string()),
    )
    .ok()
    .unwrap();
    assert_eq!(config.openai.api_key, "key");
    assert_eq!(config.openai.model, "gpt-5.6");
    assert_eq!(config.openai.base_url, "https://api.openai.com/v1");
    assert_eq!(config.openai.max_slides, 20);
    assert_eq!(config.elevenlabs.model_id, "scribe_v2");
    assert_eq!(config.tiktok.timeout_secs, 60);
    let TikTokScraperProvider::SocialProfileScraper(scraper) = config.tiktok.provider else {
        panic!("not the scraper")
    };
    assert_eq!(scraper.base_url, "https://s");
    assert_eq!(scraper.max_following_pages, 1);
    assert_eq!(scraper.region, None);
}

#[test]
fn settings_that_are_missing_are_named() {
    let missing = AppConfig::from_env(&env(&[]), "db".to_string(), None).err().unwrap();
    assert!(matches!(missing, ConfigError::Missing(_)));
    assert_eq!(missing.message(), "missing required environment variable OPENAI_API_KEY");
    let empty = AppConfig::from_env(&env(&[("OPENAI_API_KEY", " ")]), "db".to_string(), None)
        .err()
        .unwrap();
    assert!(matches!(empty, ConfigError::Empty(_)));
    assert_eq!(empty.message(), "environment variable OPENAI_API_KEY is empty");
    let scraper = AppConfig::from_env(
        &env(&[("OPENAI_API_KEY", "a"), ("ELEVENLABS_API_KEY", "b")]),
        "db".to_string(),
        None,
    )
    .err()
    .unwrap();
    assert_eq!(
        scraper.message(),
        "missing required environment variable TIKTOK_SCRAPER_BASE_URL"
    );
    let fixture = AppConfig::from_env(
        &env(&[
            ("OPENAI_API_KEY", "a"),
            ("ELEVENLABS_API_KEY", "b"),
            ("TIKTOK_SCRAPER_FIXTURE_PATH", "f"),
        ]),
        "db".to_string(),
        Some("m".to_string()),
    )
    .ok()
    .unwrap();
    assert_eq!(fixture.openai.model, "m");
    assert!(matches!(fixture.tiktok.provider, TikTokScraperProvider::Fixture(path) if path == "f"));
}

#[test]
fn a_request_is_tried_three_times_and_only_if_that_may_help() {
    let mut attempts = Attempts::new();
    assert_eq!(attempts.fail("connection reset by peer"), Some(500));
    assert_eq!(attempts.fail("Operation timed out"), Some(1000));
    assert_eq!(attempts.fail("operation timed out"), None);
    assert_eq!(Attempts::new().fail("returned 404"), None);
}

#[test]
fn pages_are_fetched_until_the_last() {
    let mut pages = FollowingPages::new(3);
    assert_eq!(pages.params("h").len(), 2);
    pages.got_page(json(r#"{"hasMore": true, "min_time": 17, "followings": []}"#));
    assert!(!pages.done);
    assert_eq!(pages.params("h")[2], ("min_time".to_string(), "17".to_string()));
    pages.got_page(json(r#"{"has_more": "yes", "minTime": "18"}"#));
    assert!(!pages.done);
    pages.got_page(json(r#"{"has_more": true, "minTime": "19"}"#));
    assert!(pages.done);
    assert_eq!(pages.pages.len(), 3);

    let mut last = FollowingPages::new(9);
    last.got_page(json(r#"{"has_more": true, "min_time": "0"}"#));
    assert!(last.done);

    let mut private = FollowingPages::new(9);
    assert!(!private.got_error("this is a Private Account"));
    assert!(private.done);
    let mut broken = FollowingPages::new(9);
    assert!(broken.got_error("returned 500"));
    assert!(!broken.done);
}

#[test]
fn the_scraper_is_asked_at_its_address() {
    assert_eq!(request_endpoint("https://s/", "/v1/x"), "https://s/v1/x");
    assert_eq!(handle_params("h"), vec![("handle".to_string(), "h".to_string())]);
    assert_eq!(posts_params("h").len(), 4);
    assert_eq!(
        with_region(handle_params("h"), &Some("de".to_string())),
        vec![
            ("handle".to_string(), "h".to_string()),
            ("region".to_string(), "de".to_string())
        ]
    );
    assert_eq!(with_region(handle_params("h"), &None).len(), 1);
}

#[test]
fn the_scraper_reports_failures_in_three_ways() {
    let message = |success: bool, status: &str, body: &str| {
        check_reply(success, status, body).err().map(|error| error.message())
    };
    assert_eq!(
        message(false, "502 Bad Gateway", "oops").as_deref(),
        Some("social profile scraper returned 502 Bad Gateway: oops")
    );
    assert_eq!(
        message(true, "200 OK", r#"{"success": false, "error": "gone"}"#).as_deref(),
        Some("social profile scraper returned an application error: gone")
    );
    assert_eq!(
        message(true, "200 OK", r#"{"status": "Error", "error": {"message": "deep"}}"#).as_deref(),
        Some("social profile scraper returned an application error: deep")
    );
    assert!(message(true, "200 OK", "{").unwrap().contains("returned invalid JSON"));
    assert_eq!(message(true, "200 OK", r#"{"success": true, "status": "ok"}"#), None);
}

#[test]
fn regions_are_markets() {
    assert_eq!(parse_region_country(&json(r#"{"country_code": "uk"}"#)).as_deref(), Some("UA"));
    assert_eq!(parse_region_country(&json(r#"{"region": "deu"}"#)), None);
    assert_eq!(parse_region_country(&json("[]")), None);
}

#[test]
fn at_most_thirty_posts_are_kept_the_newest_first() {
    let list: Vec<String> = (0..40)
        .map(|n| format!(r#"{{"url": "https://t/video/{n}", "create_time": {}}}"#, 100 + n))
        .collect();
    let text = format!(r#"{{"handle": "a", "videos": [{}, {{"url": "https://t/undated"}}]}}"#, list.join(","));
    let snapshot = parse_creator_snapshot("a", json(&text)).ok().unwrap();
    assert_eq!(snapshot.videos.len(), KEPT_POSTS);
    assert_eq!(snapshot.videos[0].url, "https://t/video/39");
    assert_eq!(snapshot.videos[29].url, "https://t/video/10");
    let few = vec![post("x", 1), post("y", 2)];
    assert_eq!(keep_newest(&few).len(), 2);
}

#[test]
fn posts_without_an_address_are_left_out() {
    assert!(parse_post(&json(r#"{"id": 5}"#)).is_none());
    let built = parse_post(&json(r#"{"id": 5, "author": {"uniqueId": "@Me"}}"#)).unwrap();
    assert_eq!(built.url, "https://www.tiktok.com/@me/video/5");
    assert_eq!(built.views, 0);
    let photo = parse_post(&json(r#"{"url": "u", "image_post": {}}"#)).unwrap();
    assert_eq!(photo.kind, TiktokPostKind::Photo);
}

#[test]
fn fixtures_are_read_from_text() {
    assert_eq!(FixtureTikTokScraper::new("dir".to_string()).path, "dir");
    assert_eq!(FixtureTikTokScraper::file_name("me"), "me.json");
    let snapshot = snapshot_from_text(
        "me",
        r#"{"profile": {"user": {"signature": "hi", "region": "en"}}, "posts": {}, "following": ["@B", "@a"]}"#,
    )
    .ok()
    .unwrap();
    assert_eq!(snapshot.handle, "me");
    assert_eq!(snapshot.bio, "hi");
    assert_eq!(snapshot.country_code.as_deref(), Some("GB"));
    assert_eq!(snapshot.following, vec!["a", "b"]);
    let no_user = snapshot_from_text("me", r#"{"profile": 1, "posts": 2}"#).err().unwrap();
    assert_eq!(no_user.message(), "scraper profile did not include a user object");
    let invalid = snapshot_from_text("me", "nope").err().unwrap();
    assert_eq!(invalid.message(), "expected ident at line 1 column 2");
}

#[test]
fn what_a_model_leaves_open_is_nothing() {
    for open in ["", "  ", "Unknown", "N/A", "none", "NULL"] {
        assert_eq!(normalize_optional_model_value(Some(open.to_string())), None);
    }
    assert_eq!(normalize_optional_model_value(None), None);
    assert_eq!(
        normalize_optional_email(Some(" Me @ Host. com ".to_string())).as_deref(),
        Some("me@host.com")
    );
    assert_eq!(normalize_optional_email(Some("me@host".to_string())), None);
    assert_eq!(normalize_optional_email(Some("me.host".to_string())), None);
}

#[test]
fn names_of_apps_are_cleaned() {
    assert_eq!(
        clean_ambassador_app_candidate(" - Astra AI.  more".to_string()).as_deref(),
        Some("Astra AI.")
    );
    assert_eq!(clean_ambassador_app_candidate("Campus".to_string()), None);
    assert_eq!(clean_ambassador_app_candidate(" .. ".to_string()), None);
    assert_eq!(
        choose_name_in_line(Some("After".to_string()), Some("Before".to_string())).as_deref(),
        Some("After")
    );
    assert_eq!(choose_name_in_line(Some("brand".to_string()), Some("Before".to_string())), None);
    assert_eq!(choose_name_in_line(None, Some("Before".to_string())).as_deref(), Some("Before"));
}

#[test]
fn mentions_are_counted_by_section() {
    assert_eq!(normalize_detection_text("  The-Ick,\t IS  here! "), "theick is here");
    let text = "the ick the ick\n\n---\n\nnothing\n\n---\n\nThe Ick!";
    assert_eq!(count_post_sections_containing_app(text, "The Ick"), 2);
    assert_eq!(count_post_sections_containing_app(text, "--"), 0);
}

fn claimed(app: Option<&str>, known: Option<&str>, count: u8) -> AppClassification {
    AppClassification {
        promotes_app: true,
        app_name: app.map(|s| s.to_string()),
        existing_app_name: known.map(|s| s.to_string()),
        supporting_post_count: count,
        evidence: "seen".to_string(),
        ..AppClassification::no_app()
    }
}

#[test]
fn a_classification_is_made_consistent() {
    let known = vec!["Astra AI".to_string()];
    let new = canonicalize_classification(claimed(Some(" Pingo "), None, 9), &known);
    assert_eq!(new.app_name.as_deref(), Some("Pingo"));
    assert_eq!(new.supporting_post_count, 3);
    assert!(new.is_new_app && !new.is_existing_app);
    assert_eq!(new.existing_app_name, None);
    let nameless = canonicalize_classification(claimed(Some(" "), None, 2), &known);
    assert!(!nameless.promotes_app);
    assert_eq!(nameless.evidence, "seen");
    let one = canonicalize_classification(claimed(Some("x"), None, 1), &known);
    assert_eq!(
        one.evidence,
        "seen Same app was supported by only 1 analyzed post section(s); minimum is 2."
    );
}

#[test]
fn requests_to_the_model_say_what_is_asked() {
    assert_eq!(responses_endpoint("https://api//"), "https://api/responses");
    let images = image_inputs(&vec!["data:x".to_string()], "high");
    assert_eq!(
        to_text(&images[0]),
        r#"{"detail":"high","image_url":"data:x","type":"input_image"}"#
    );
    let slides = to_text(&slideshow_request("m", &Some("cap".to_string()), images));
    assert!(slides.contains("Caption: cap\""));
    assert!(slides.contains(r#""name":"slideshow_content""#));
    assert!(slides.contains(r#""model":"m""#));
    let language = to_text(&language_request("m", "h", "b", "c"));
    assert!(language.contains(r#"\"handle\":\"h\""#));
    let profile = Profile {
        handle: "h".to_string(),
        display_name: None,
        bio: "b".to_string(),
        latest_content: "c".to_string(),
    };
    let request =
        to_text(&classification_request("m", &profile, &vec!["Astra".to_string()], Vec::new()));
    assert!(request.contains(r#"\"creator_display_name\":\"unknown\""#));
    assert!(request.contains(r#"\"known_app_names\":[\"Astra\"]"#));
    assert!(request.contains(r#""maximum":3"#));
    assert!(retry_without_images(1));
    assert!(!retry_without_images(0));
}

#[test]
fn replies_of_the_model_are_unpacked() {
    assert_eq!(
        extract_output_text(&json(r#"{"output_text": "direct"}"#)).as_deref(),
        Some("direct")
    );
    assert_eq!(extract_output_text(&json(r#"{"output": [{"content": [{"type": "x"}]}]}"#)), None);
    assert_eq!(read_response(true, "200 OK", r#"{"output_text": "t"}"#).ok().as_deref(), Some("t"));
    let message = |success: bool, status: &str, body: &str| {
        read_response(success, status, body).err().map(|error| error.message())
    };
    assert_eq!(
        message(false, "500", "x").as_deref(),
        Some("OpenAI Responses API returned 500: x")
    );
    assert!(message(true, "200", "{").unwrap().starts_with("OpenAI Responses API returned invalid JSON"));
    assert_eq!(
        message(true, "200", "{}").as_deref(),
        Some("OpenAI response did not contain output text: {}")
    );
    assert_eq!(truncate("abcd", 3), "abc...");
    assert_eq!(truncate("abc", 3), "abc");
    assert_eq!(
        structured_output_error("zz"),
        "failed to parse OpenAI structured output as JSON: zz"
    );
}

#[test]
fn images_are_sent_as_data() {
    assert_eq!(
        image_data_url(true, "200 OK", &Some("image/png; q=1".to_string()), &b"hello".to_vec())
            .ok()
            .as_deref(),
        Some("data:image/png;base64,aGVsbG8=")
    );
    assert_eq!(image_content_type(&Some("text/html".to_string())), "image/jpeg");
    assert_eq!(image_content_type(&None), "image/jpeg");
    let message = |success: bool, bytes: Vec<u8>| {
        image_data_url(success, "404 Not Found", &None, &bytes).err().map(|e| e.message())
    };
    assert_eq!(
        message(false, vec![1, 2]).as_deref(),
        Some("visual image fetch returned 404 Not Found with 2 bytes")
    );
    assert_eq!(
        message(true, Vec::new()).as_deref(),
        Some("visual image fetch returned an empty body")
    );
    assert_eq!(
        message(true, vec![0; MAX_OPENAI_IMAGE_BYTES + 1]).as_deref(),
        Some("visual image fetch returned 8388609 bytes, above the 8388608 byte cap")
    );
}

#[test]
fn speech_is_written_down_or_sent_along() {
    assert_eq!(speech_to_text_endpoint("https://e/"), "https://e/v1/speech-to-text");
    let fields = transcription_fields("m", &Some("u".to_string()));
    assert_eq!(fields[1], ("source_url".to_string(), "u".to_string()));
    assert_eq!(transcript_content("t".to_string(), None).language_code, "UNKNOWN");
    assert_eq!(transcript_content("t".to_string(), Some("eng".to_string())).language_code, "ENG");
    assert_eq!(
        transcription_error("400", "b"),
        "ElevenLabs speech-to-text returned 400: b"
    );
    let message = |success: bool, kind: Option<&str>, size: usize| {
        check_media(success, "403", &kind.map(|s| s.to_string()), size)
            .err()
            .map(|e| e.message())
    };
    assert_eq!(
        message(false, None, 7).as_deref(),
        Some("media download returned 403 with 7 bytes")
    );
    assert_eq!(
        message(true, Some("text/html"), 7).as_deref(),
        Some("media download returned text/html, not audio/video")
    );
    assert_eq!(message(true, Some("video/mp4"), 0).as_deref(), Some("downloaded media was empty"));
    assert_eq!(message(true, None, 1), None);
}

#[test]
fn a_failed_transcription_falls_back_once() {
    let TranscriptionStep::Next(stage) =
        after_stage(TranscriptionStage::Remote, Some("no".to_string()))
    else {
        panic!("no fallback")
    };
    let failed = after_stage(
        TranscriptionStage::Download { source_error: "no".to_string() },
        Some("lost".to_string()),
    );
    assert!(matches!(failed, TranscriptionStep::Failed(e)
        if e == "no; fallback media download failed: lost"));
    let TranscriptionStep::Next(stage) = after_stage(stage, None) else { panic!("no upload") };
    assert!(matches!(&stage, TranscriptionStage::Upload { source_error } if source_error == "no"));
    let failed = after_stage(stage, Some("late".to_string()));
    assert!(matches!(failed, TranscriptionStep::Failed(e)
        if e == "no; fallback upload failed: late"));
    assert!(matches!(after_stage(TranscriptionStage::Remote, None), TranscriptionStep::Finished));
}

#[test]
fn posts_become_one_text() {
    let (mut a, mut b) = (post("a", 3), post("b", 4));
    a.is_pinned = true;
    b.caption = Some(" cap ".to_string());
    let c = post("c", 5);
    let posts = vec![&a, &b, &c];
    let read = vec![Some(content("said", "UNKNOWN")), None, None];
    let all = assemble_content(&posts, &read);
    assert_eq!(
        all.text,
        "Post 1 of 3\nURL: https://t/a\nViews: 3\nPinned: true\nsaid\n\n---\n\nPost 2 of 3\nURL: https://t/b\nViews: 4\nPinned: false\nTranscript unavailable.\n\nCaption:\ncap"
    );
    assert_eq!(all.language_code, "UNKNOWN");
    let read = vec![Some(content("x", "UNKNOWN")), Some(content("y", "spa")), Some(content("z", "ENG"))];
    assert_eq!(assemble_content(&posts, &read).language_code, "SPA");
    assert_eq!(assemble_content(&Vec::new(), &Vec::new()).text, "");
    assert_eq!(collect_images(&posts), vec!["https://i/a", "https://i/b", "https://i/c"]);
    assert!(format_post_content_section(1, 2, &c, "t").starts_with("Post 2 of 2\n"));
}

#[test]
fn videos_are_heard_and_slides_are_read() {
    let mut p = post("a", 1);
    assert!(matches!(reading_of(&p), PostReading::Transcribe(u) if u == "https://t/a"));
    p.source_url = Some("https://src".to_string());
    assert!(matches!(reading_of(&p), PostReading::Transcribe(u) if u == "https://src"));
    p.kind = TiktokPostKind::Photo;
    assert!(matches!(reading_of(&p), PostReading::ReadSlides));
    let with = video_content(content("t", "eng"), &Some(" c".to_string()));
    assert_eq!(with.text, "Transcript:\nt\n\nCaption:\n c");
    assert_eq!(with.language_code, "ENG");
    assert_eq!(video_content(content("t", ""), &Some(" ".to_string())).text, "t");
}

#[test]
fn the_language_that_was_found_counts() {
    let mut c = AppClassification::no_app();
    assert_eq!(with_found_language(content("t", "ENG"), &c).language_code, "ENG");
    c.language_code = "DEU".to_string();
    assert_eq!(with_found_language(content("t", "ENG"), &c).language_code, "DEU");
    assert!(c.confidence == Real { bits: 0 });
}

#[test]
fn the_last_of_the_most_viewed_posts_is_the_most_viral() {
    let stats = calculate_creator_stats(&vec![post("a", 5), post("b", 9), post("c", 9)]);
    assert_eq!(stats.most_viral_video_url.as_deref(), Some("https://t/c"));
    assert_eq!(stats.avg_views.total, 23);
    assert_eq!(stats.avg_views.count, 3);
    assert_eq!((stats.median_views.low, stats.median_views.high), (9, 9));
    let none = calculate_creator_stats(&Vec::new());
    assert_eq!(none.most_viral_video_views, None);
    assert_eq!(none.avg_views.count, 0);
}

#[test]
fn markets_stand_for_themselves() {
    for region in [" nb ", "NN", "zh", "us", "El"] {
        let market = normalize_country_code(region).unwrap();
        assert_eq!(market.len(), 2);
        assert_eq!(market, market.to_ascii_uppercase());
        assert_eq!(normalize_country_code(&market), Some(market));
    }
    assert_eq!(normalize_country_code("d1"), None);
    assert_eq!(normalize_country_code("é"), None);
}

#[test]
fn posts_that_cannot_be_read_say_nothing() {
    let (a, mut b) = (post("a", 1), post("b", 2));
    b.caption = Some("  ".to_string());
    let nothing = assemble_content(&vec![&a, &b], &vec![None, None]);
    assert_eq!((nothing.text.as_str(), nothing.language_code.as_str()), ("", "UNKNOWN"));
}

#[test]
fn no_post_is_seen_more_often_than_the_most_viral_one() {
    let posts = vec![post("a", 4), post("b", 10), post("c", 1), post("d", 7)];
    let stats = calculate_creator_stats(&posts);
    let most = stats.most_viral_video_views.unwrap();
    assert_eq!(most, 10);
    assert_eq!((stats.median_views.low, stats.median_views.high), (4, 7));
    assert!(stats.avg_views.total <= most * stats.avg_views.count as u64);
    assert!(stats.median_views.high <= most);
}

#[test]
fn a_snapshot_is_canonical_whatever_the_document_says() {
    let snapshot = parse_creator_snapshot(
        "me",
        json(r#"{"username": "https://tiktok.com/@Some.One?x=1", "region": "sv",
            "following": ["@b", {"handle": "@A"}, "B", "?"]}"#),
    )
    .ok()
    .unwrap();
    assert_eq!(snapshot.handle, "some.one");
    assert_eq!(snapshot.country_code.as_deref(), Some("SE"));
    assert_eq!(snapshot.following, vec!["a", "b"]);
}
